//! The plugin surface: what an out-of-tree extension reports about
//! itself. Hosts discover and call plugins; the library only fixes the
//! shape of the handshake.

use vstd::prelude::*;

verus! {

/// A plugin's self-description.
#[derive(Clone, Copy, Debug)]
pub struct PluginInfo {
    pub id: &'static str,
    pub version: &'static str,
    pub description: &'static str,
}

/// An extension the forge can host.
pub trait PhoenixPlugin {
    fn info(&self) -> PluginInfo;
}

} // verus!
