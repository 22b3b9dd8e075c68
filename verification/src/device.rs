//! The device graph: an immutable snapshot of the host's disks,
//! partitions and mount points, and the pure helpers that search it and
//! normalize the identifiers it holds.

use vstd::prelude::*;

use crate::text::{
    decimal_value, all_digits, eq_ignore_case, parse_u32, push_char, str_eq,
    str_eq_ignore_case, str_starts_with,
};

verus! {

/// The host the snapshot was taken on.
#[derive(Clone, Debug)]
pub struct HostInfo {
    pub os: String,
    pub os_version: String,
    pub machine: String,
}

/// One partition of a disk.
#[derive(Clone, Debug)]
pub struct Partition {
    pub id: String,
    pub label: Option<String>,
    pub fs: Option<String>,
    pub size_bytes: u64,
    pub mount_points: Vec<String>,
}

/// One physical disk, with the provider's classification.
#[derive(Clone, Debug)]
pub struct Disk {
    pub id: String,
    pub friendly_name: String,
    pub size_bytes: u64,
    pub is_system_disk: bool,
    pub removable: bool,
    pub partitions: Vec<Partition>,
}

/// A snapshot of the host's disks; rebuilt before each operation.
#[derive(Clone, Debug)]
pub struct DeviceGraph {
    pub schema_version: String,
    pub graph_id: String,
    pub host: HostInfo,
    pub disks: Vec<Disk>,
    pub generated_at_utc: String,
}

/// The device-graph schema this library writes, exactly.
pub fn device_graph_schema_version() -> (v: &'static str)
    ensures
        v@ == "1.1.0"@,
{
    "1.1.0"
}

impl DeviceGraph {
    /// Assemble a snapshot: the given host, disks and timestamp, the
    /// current schema version, and a fresh random graph id.
    pub fn new(host: HostInfo, disks: Vec<Disk>, generated_at_utc: String) -> (g: DeviceGraph)
        ensures
            g.schema_version@ == "1.1.0"@,
            g.host == host,
            g.disks == disks,
            g.generated_at_utc == generated_at_utc,
    {
        DeviceGraph {
            schema_version: "1.1.0".to_owned(),
            graph_id: crate::safety::fresh_uuid_string(),
            host,
            disks,
            generated_at_utc,
        }
    }
}

/// `s` with every trailing `/` removed.
pub open spec fn strip_trailing_slashes(s: Seq<char>) -> Seq<char>
    decreases s.len(),
{
    if s.len() > 0 && s[s.len() - 1] == '/' {
        strip_trailing_slashes(s.drop_last())
    } else {
        s
    }
}

/// A Unix mount path normalized: `/` stays itself, anything else loses
/// its trailing slashes.
pub open spec fn norm_unix_mount(s: Seq<char>) -> Seq<char> {
    if s == "/"@ {
        s
    } else {
        strip_trailing_slashes(s)
    }
}

/// Normalize a Unix mount path.
pub fn normalize_mount_for_unix(path: &str) -> (r: String)
    ensures
        r@ == norm_unix_mount(path@),
{
    if str_eq(path, "/") {
        return path.to_owned();
    }
    let len = path.unicode_len();
    proof {
        assert(path@.subrange(0, len as int) =~= path@);
    }
    let mut end: usize = len;
    while end > 0 && path.get_char(end - 1) == '/'
        invariant
            len == path@.len(),
            end <= len,
            strip_trailing_slashes(path@) == strip_trailing_slashes(
                path@.subrange(0, end as int),
            ),
        decreases end,
    {
        proof {
            let sub = path@.subrange(0, end as int);
            assert(sub.drop_last() =~= path@.subrange(0, end as int - 1));
        }
        end = end - 1;
    }
    proof {
        let sub = path@.subrange(0, end as int);
        if end > 0 {
            assert(sub[sub.len() - 1] != '/');
        }
        assert(strip_trailing_slashes(path@) == sub);
    }
    let mut out = String::new();
    let mut i: usize = 0;
    while i < end
        invariant
            len == path@.len(),
            i <= end <= len,
            out@ == path@.subrange(0, i as int),
        decreases end - i,
    {
        push_char(&mut out, path.get_char(i));
        proof {
            assert(path@.subrange(0, i as int).push(path@[i as int]) =~= path@.subrange(
                0,
                i as int + 1,
            ));
        }
        i = i + 1;
    }
    out
}

/// A Windows mount path normalized: a path ending in `:` gains a
/// trailing backslash, everything else is untouched.
pub open spec fn norm_windows_mount(s: Seq<char>) -> Seq<char> {
    if s.len() > 0 && s[s.len() - 1] == ':' {
        s.push('\\')
    } else {
        s
    }
}

/// Normalize a Windows mount path.
pub fn normalize_mount_path(path: &str) -> (r: String)
    ensures
        r@ == norm_windows_mount(path@),
{
    let len = path.unicode_len();
    let mut out = path.to_owned();
    if len > 0 && path.get_char(len - 1) == ':' {
        push_char(&mut out, '\\');
    }
    out
}

/// A disk has a partition mounted at exactly `m` after Unix
/// normalization of its mount points.
pub open spec fn disk_mounts_at(d: Disk, m: Seq<char>) -> bool {
    exists|p: int, q: int|
        0 <= p < d.partitions@.len() && 0 <= q < d.partitions@[p].mount_points@.len()
            && norm_unix_mount((#[trigger] d.partitions@[p].mount_points@[q])@) == m
}

/// Whether this disk mounts at `m` (already normalized).
fn disk_mounts_at_exec(d: &Disk, m: &str) -> (r: bool)
    ensures
        r == disk_mounts_at(*d, m@),
{
    let mut p: usize = 0;
    while p < d.partitions.len()
        invariant
            p <= d.partitions@.len(),
            forall|pi: int, q: int|
                0 <= pi < p && 0 <= q < d.partitions@[pi].mount_points@.len()
                    ==> norm_unix_mount((#[trigger] d.partitions@[pi].mount_points@[q])@) != m@,
        decreases d.partitions@.len() - p,
    {
        let part = &d.partitions[p];
        let mut q: usize = 0;
        while q < part.mount_points.len()
            invariant
                part == d.partitions@[p as int],
                p < d.partitions@.len(),
                q <= part.mount_points@.len(),
                forall|qi: int|
                    0 <= qi < q ==> norm_unix_mount(
                        (#[trigger] part.mount_points@[qi])@,
                    ) != m@,
            decreases part.mount_points@.len() - q,
        {
            let candidate = normalize_mount_for_unix(part.mount_points[q].as_str());
            if str_eq(candidate.as_str(), m) {
                proof {
                    assert(norm_unix_mount((d.partitions@[p as int].mount_points@[q as int])@)
                        == m@);
                }
                return true;
            }
            q = q + 1;
        }
        p = p + 1;
    }
    false
}

/// The first disk with a partition mounted at `m` (already normalized).
pub open spec fn disk_index_by_mount(disks: Seq<Disk>, m: Seq<char>) -> Option<int>
    decreases disks.len(),
{
    if disks.len() == 0 {
        None
    } else if disk_mounts_at(disks[0], m) {
        Some(0int)
    } else {
        match disk_index_by_mount(disks.drop_first(), m) {
            Some(i) => Some(i + 1),
            None => None,
        }
    }
}

/// Find the first disk with a partition mounted at `mount`, after Unix
/// normalization of both sides.
pub fn find_disk_by_mount(graph: &DeviceGraph, mount: &str) -> (r: Option<usize>)
    ensures
        match r {
            Some(i) => disk_index_by_mount(graph.disks@, norm_unix_mount(mount@)) == Some(i as int),
            None => disk_index_by_mount(graph.disks@, norm_unix_mount(mount@)) is None,
        },
{
    let m = normalize_mount_for_unix(mount);
    proof {
        assert(graph.disks@.skip(0) =~= graph.disks@);
    }
    let mut i: usize = 0;
    while i < graph.disks.len()
        invariant
            i <= graph.disks@.len(),
            m@ == norm_unix_mount(mount@),
            disk_index_by_mount(graph.disks@, norm_unix_mount(mount@)) == (match disk_index_by_mount(
                graph.disks@.skip(i as int),
                norm_unix_mount(mount@),
            ) {
                Some(k) => Some(k + i),
                None => None::<int>,
            }),
        decreases graph.disks@.len() - i,
    {
        proof {
            let rest = graph.disks@.skip(i as int);
            assert(rest[0] == graph.disks@[i as int]);
            assert(rest.drop_first() =~= graph.disks@.skip(i as int + 1));
        }
        if disk_mounts_at_exec(&graph.disks[i], m.as_str()) {
            return Some(i);
        }
        i = i + 1;
    }
    proof {
        assert(graph.disks@.skip(graph.disks@.len() as int) =~= Seq::<Disk>::empty());
    }
    None
}

/// A disk has a mount point equal, up to ASCII case, to `m`.
pub open spec fn disk_mounts_at_nocase(d: Disk, m: Seq<char>) -> bool {
    exists|p: int, q: int|
        0 <= p < d.partitions@.len() && 0 <= q < d.partitions@[p].mount_points@.len()
            && eq_ignore_case((#[trigger] d.partitions@[p].mount_points@[q])@, m)
}

/// Whether this disk has a mount equal to `m` up to case.
pub fn disk_mounts_at_nocase_exec(d: &Disk, m: &str) -> (r: bool)
    ensures
        r == disk_mounts_at_nocase(*d, m@),
{
    let mut p: usize = 0;
    while p < d.partitions.len()
        invariant
            p <= d.partitions@.len(),
            forall|pi: int, q: int|
                0 <= pi < p && 0 <= q < d.partitions@[pi].mount_points@.len() ==> !eq_ignore_case(
                    (#[trigger] d.partitions@[pi].mount_points@[q])@,
                    m@,
                ),
        decreases d.partitions@.len() - p,
    {
        let part = &d.partitions[p];
        let mut q: usize = 0;
        while q < part.mount_points.len()
            invariant
                part == d.partitions@[p as int],
                p < d.partitions@.len(),
                q <= part.mount_points@.len(),
                forall|qi: int|
                    0 <= qi < q ==> !eq_ignore_case((#[trigger] part.mount_points@[qi])@, m@),
            decreases part.mount_points@.len() - q,
        {
            if str_eq_ignore_case(part.mount_points[q].as_str(), m) {
                proof {
                    assert(eq_ignore_case((d.partitions@[p as int].mount_points@[q as int])@, m@));
                }
                return true;
            }
            q = q + 1;
        }
        p = p + 1;
    }
    false
}

/// Some system disk of the graph has `path` — Windows-normalized — among
/// its mount points, up to ASCII case.
pub open spec fn system_mount_path(graph: DeviceGraph, path: Seq<char>) -> bool {
    exists|i: int|
        0 <= i < graph.disks@.len() && (#[trigger] graph.disks@[i]).is_system_disk
            && disk_mounts_at_nocase(graph.disks@[i], norm_windows_mount(path))
}

/// Whether `path` names a mount of a system disk.
pub fn is_system_mount_path(path: &str, graph: &DeviceGraph) -> (r: bool)
    ensures
        r == system_mount_path(*graph, path@),
{
    let value = normalize_mount_path(path);
    let mut i: usize = 0;
    while i < graph.disks.len()
        invariant
            i <= graph.disks@.len(),
            value@ == norm_windows_mount(path@),
            forall|j: int|
                0 <= j < i ==> !((#[trigger] graph.disks@[j]).is_system_disk && disk_mounts_at_nocase(
                    graph.disks@[j],
                    norm_windows_mount(path@),
                )),
        decreases graph.disks@.len() - i,
    {
        let d = &graph.disks[i];
        if d.is_system_disk {
            if disk_mounts_at_nocase_exec(d, value.as_str()) {
                return true;
            }
        }
        i = i + 1;
    }
    false
}

/// The first disk whose id equals `id` up to ASCII case.
pub open spec fn disk_index_by_id(disks: Seq<Disk>, id: Seq<char>) -> Option<int>
    decreases disks.len(),
{
    if disks.len() == 0 {
        None
    } else if eq_ignore_case(disks[0].id@, id) {
        Some(0int)
    } else {
        match disk_index_by_id(disks.drop_first(), id) {
            Some(i) => Some(i + 1),
            None => None,
        }
    }
}

/// Find the first disk whose id equals `disk_id` up to ASCII case.
pub fn find_disk_by_id(graph: &DeviceGraph, disk_id: &str) -> (r: Option<usize>)
    ensures
        match r {
            Some(i) => disk_index_by_id(graph.disks@, disk_id@) == Some(i as int),
            None => disk_index_by_id(graph.disks@, disk_id@) is None,
        },
{
    proof {
        assert(graph.disks@.skip(0) =~= graph.disks@);
    }
    let mut i: usize = 0;
    while i < graph.disks.len()
        invariant
            i <= graph.disks@.len(),
            disk_index_by_id(graph.disks@, disk_id@) == (match disk_index_by_id(
                graph.disks@.skip(i as int),
                disk_id@,
            ) {
                Some(k) => Some(k + i),
                None => None::<int>,
            }),
        decreases graph.disks@.len() - i,
    {
        proof {
            let rest = graph.disks@.skip(i as int);
            assert(rest[0] == graph.disks@[i as int]);
            assert(rest.drop_first() =~= graph.disks@.skip(i as int + 1));
        }
        if str_eq_ignore_case(graph.disks[i].id.as_str(), disk_id) {
            return Some(i);
        }
        i = i + 1;
    }
    proof {
        assert(graph.disks@.skip(graph.disks@.len() as int) =~= Seq::<Disk>::empty());
    }
    None
}

/// Parse the number out of a `PhysicalDriveN` id.
///
/// `Some` exactly when the id is `PhysicalDrive` followed by decimal
/// digits whose value fits in a `u32`.
pub fn parse_disk_number(id: &str) -> (r: Option<u32>)
    ensures
        r is Some <==> id@.len() > "PhysicalDrive"@.len() && id@.subrange(
            0,
            "PhysicalDrive"@.len() as int,
        ) == "PhysicalDrive"@ && all_digits(id@.skip("PhysicalDrive"@.len() as int))
            && decimal_value(id@.skip("PhysicalDrive"@.len() as int)) <= u32::MAX,
        r matches Some(n) ==> n == decimal_value(id@.skip("PhysicalDrive"@.len() as int)),
{
    proof {
        reveal_strlit("PhysicalDrive");
    }
    if !str_starts_with(id, "PhysicalDrive") {
        return None;
    }
    let len = id.unicode_len();
    let suffix = id.substring_char(13, len);
    proof {
        assert(suffix@ =~= id@.skip(13));
    }
    parse_u32(suffix)
}

/// The uppercase form of an ASCII letter; other characters unchanged.
pub open spec fn upper_char(c: char) -> char {
    if c == 'a' {
        'A'
    } else if c == 'b' {
        'B'
    } else if c == 'c' {
        'C'
    } else if c == 'd' {
        'D'
    } else if c == 'e' {
        'E'
    } else if c == 'f' {
        'F'
    } else if c == 'g' {
        'G'
    } else if c == 'h' {
        'H'
    } else if c == 'i' {
        'I'
    } else if c == 'j' {
        'J'
    } else if c == 'k' {
        'K'
    } else if c == 'l' {
        'L'
    } else if c == 'm' {
        'M'
    } else if c == 'n' {
        'N'
    } else if c == 'o' {
        'O'
    } else if c == 'p' {
        'P'
    } else if c == 'q' {
        'Q'
    } else if c == 'r' {
        'R'
    } else if c == 's' {
        'S'
    } else if c == 't' {
        'T'
    } else if c == 'u' {
        'U'
    } else if c == 'v' {
        'V'
    } else if c == 'w' {
        'W'
    } else if c == 'x' {
        'X'
    } else if c == 'y' {
        'Y'
    } else if c == 'z' {
        'Z'
    } else {
        c
    }
}

/// Uppercase one ASCII letter.
pub fn upper_char_exec(c: char) -> (r: char)
    ensures
        r == upper_char(c),
{
    match c {
        'a' => 'A',
        'b' => 'B',
        'c' => 'C',
        'd' => 'D',
        'e' => 'E',
        'f' => 'F',
        'g' => 'G',
        'h' => 'H',
        'i' => 'I',
        'j' => 'J',
        'k' => 'K',
        'l' => 'L',
        'm' => 'M',
        'n' => 'N',
        'o' => 'O',
        'p' => 'P',
        'q' => 'Q',
        'r' => 'R',
        's' => 'S',
        't' => 'T',
        'u' => 'U',
        'v' => 'V',
        'w' => 'W',
        'x' => 'X',
        'y' => 'Y',
        'z' => 'Z',
        _ => c,
    }
}

/// Read the drive letter off a path like `E:\...`.
///
/// `Some` exactly when the second character is `:`; the letter comes
/// back uppercased.
pub fn extract_drive_letter(path: &str) -> (r: Option<char>)
    ensures
        r is Some <==> path@.len() >= 2 && path@[1] == ':',
        r matches Some(c) ==> c == upper_char(path@[0]),
{
    let len = path.unicode_len();
    if len < 2 {
        return None;
    }
    if path.get_char(1) == ':' {
        Some(upper_char_exec(path.get_char(0)))
    } else {
        None
    }
}

/// The first index at or after `from` where `s` holds `c`.
pub open spec fn first_char_from(s: Seq<char>, c: char, from: int) -> Option<int>
    decreases s.len() - from,
{
    if from < 0 || from >= s.len() {
        None
    } else if s[from] == c {
        Some(from)
    } else {
        first_char_from(s, c, from + 1)
    }
}

/// The last index where `s` holds `c`.
pub open spec fn last_char_at(s: Seq<char>, c: char) -> Option<int>
    decreases s.len(),
{
    if s.len() == 0 {
        None
    } else if s[s.len() - 1] == c {
        Some(s.len() - 1)
    } else {
        last_char_at(s.drop_last(), c)
    }
}

/// `s` with its trailing decimal digits removed.
pub open spec fn strip_trailing_digits(s: Seq<char>) -> Seq<char>
    decreases s.len(),
{
    if s.len() > 0 && 48 <= s[s.len() - 1] as u32 && s[s.len() - 1] as u32 <= 57 {
        strip_trailing_digits(s.drop_last())
    } else {
        s
    }
}

/// Find the first occurrence of `c` in `s` at or after `from`.
pub fn find_char_from(s: &str, c: char, from: usize) -> (r: Option<usize>)
    ensures
        match r {
            Some(i) => first_char_from(s@, c, from as int) == Some(i as int) && from <= i
                < s@.len(),
            None => first_char_from(s@, c, from as int) is None,
        },
{
    let len = s.unicode_len();
    let mut i: usize = from;
    while i < len
        invariant
            len == s@.len(),
            from <= i,
            i <= len || from > len,
            first_char_from(s@, c, from as int) == first_char_from(s@, c, i as int),
        decreases len - i,
    {
        if s.get_char(i) == c {
            return Some(i);
        }
        i = i + 1;
    }
    None
}

/// Find the last occurrence of `c` in `s`.
pub fn find_char_last(s: &str, c: char) -> (r: Option<usize>)
    ensures
        match r {
            Some(i) => last_char_at(s@, c) == Some(i as int) && i < s@.len(),
            None => last_char_at(s@, c) is None,
        },
{
    let len = s.unicode_len();
    proof {
        assert(s@.subrange(0, len as int) =~= s@);
    }
    let mut end: usize = len;
    while end > 0
        invariant
            len == s@.len(),
            end <= len,
            last_char_at(s@, c) == last_char_at(s@.subrange(0, end as int), c),
        decreases end,
    {
        proof {
            let sub = s@.subrange(0, end as int);
            assert(sub.drop_last() =~= s@.subrange(0, end as int - 1));
        }
        if s.get_char(end - 1) == c {
            proof {
                let sub = s@.subrange(0, end as int);
                assert(sub[sub.len() - 1] == c);
            }
            return Some(end - 1);
        }
        end = end - 1;
    }
    proof {
        assert(s@.subrange(0, 0) =~= Seq::<char>::empty());
    }
    None
}

/// A copy of `s@[from..to]`.
pub fn substring_copy(s: &str, from: usize, to: usize) -> (r: String)
    requires
        from <= to <= s@.len(),
    ensures
        r@ == s@.subrange(from as int, to as int),
{
    let mut out = String::new();
    let mut i: usize = from;
    while i < to
        invariant
            from <= i <= to <= s@.len(),
            out@ == s@.subrange(from as int, i as int),
        decreases to - i,
    {
        push_char(&mut out, s.get_char(i));
        proof {
            assert(s@.subrange(from as int, i as int).push(s@[i as int]) =~= s@.subrange(
                from as int,
                i as int + 1,
            ));
        }
        i = i + 1;
    }
    out
}

/// What `disk_id_from_device_path` must return: the device file name —
/// what follows the last `/` — reduced to its whole-disk id. A `diskN…`
/// name is cut at the first `s` after the prefix, an `nvme…` name at its
/// last `p`; any other name loses its trailing digits, and an id that
/// would be empty is no id.
pub open spec fn disk_id_of_device_path(s: Seq<char>) -> Option<Seq<char>> {
    let name = (match last_char_at(s, '/') {
        Some(i) => s.skip(i + 1),
        None => s,
    });
    if name.len() >= 4 && name.subrange(0, 4) == "disk"@ {
        match first_char_from(name, 's', 4) {
            Some(j) => Some(name.subrange(0, j)),
            None => Some(name),
        }
    } else if name.len() >= 4 && name.subrange(0, 4) == "nvme"@ && last_char_at(
        name,
        'p',
    ) is Some {
        Some(name.subrange(0, last_char_at(name, 'p')->0))
    } else {
        if strip_trailing_digits(name).len() == 0 {
            None
        } else {
            Some(strip_trailing_digits(name))
        }
    }
}

/// Resolve a device path like `/dev/sdb2`, `/dev/disk2s1` or
/// `/dev/nvme0n1p2` to the whole disk's id.
pub fn disk_id_from_device_path(path: &str) -> (r: Option<String>)
    ensures
        match r {
            Some(id) => disk_id_of_device_path(path@) == Some(id@),
            None => disk_id_of_device_path(path@) is None,
        },
{
    let len = path.unicode_len();
    let start: usize = match find_char_last(path, '/') {
        Some(i) => i + 1,
        None => 0,
    };
    let name = substring_copy(path, start, len);
    proof {
        match last_char_at(path@, '/') {
            Some(i) => {
                assert(name@ =~= path@.skip(i + 1));
            },
            None => {
                assert(name@ =~= path@);
            },
        }
    }
    let n = name.as_str();
    let n_len = n.unicode_len();
    proof {
        reveal_strlit("disk");
        reveal_strlit("nvme");
    }
    if str_starts_with(n, "disk") {
        match find_char_from(n, 's', 4) {
            Some(j) => {
                return Some(substring_copy(n, 0, j));
            },
            None => {
                return Some(name);
            },
        }
    }
    if str_starts_with(n, "nvme") {
        match find_char_last(n, 'p') {
            Some(j) => {
                return Some(substring_copy(n, 0, j));
            },
            None => {},
        }
    }
    proof {
        assert(n@.subrange(0, n@.len() as int) =~= n@);
    }
    let mut end: usize = n_len;
    while end > 0 && is_digit_char(n.get_char(end - 1))
        invariant
            n_len == n@.len(),
            end <= n_len,
            strip_trailing_digits(n@) == strip_trailing_digits(n@.subrange(0, end as int)),
        decreases end,
    {
        proof {
            let sub = n@.subrange(0, end as int);
            assert(sub.drop_last() =~= n@.subrange(0, end as int - 1));
        }
        end = end - 1;
    }
    proof {
        let sub = n@.subrange(0, end as int);
        if end > 0 {
            assert(!(48 <= sub[sub.len() - 1] as u32 && sub[sub.len() - 1] as u32 <= 57));
        }
        assert(strip_trailing_digits(n@) == sub);
    }
    if end == 0 {
        return None;
    }
    Some(substring_copy(n, 0, end))
}

/// Whether `c` is a decimal digit.
fn is_digit_char(c: char) -> (r: bool)
    ensures
        r == (48 <= c as u32 && c as u32 <= 57),
{
    let code = c as u32;
    48 <= code && code <= 57
}

/// The whole-disk part of a partition device name such as `disk2s1`: cut
/// at the first `s` after the `disk` prefix; other names are kept whole.
pub open spec fn split_disk_id_spec(s: Seq<char>) -> Seq<char> {
    if s.len() >= 4 && s.subrange(0, 4) == "disk"@ && first_char_from(s, 's', 4) is Some {
        s.subrange(0, first_char_from(s, 's', 4)->0)
    } else {
        s
    }
}

/// Cut a `diskNsM` device name down to its whole-disk id.
pub fn split_disk_id(device_name: &str) -> (r: String)
    ensures
        r@ == split_disk_id_spec(device_name@),
{
    proof {
        reveal_strlit("disk");
    }
    if str_starts_with(device_name, "disk") {
        match find_char_from(device_name, 's', 4) {
            Some(j) => {
                return substring_copy(device_name, 0, j);
            },
            None => {},
        }
    }
    device_name.to_owned()
}

/// A found disk index is in range.
pub proof fn lemma_disk_index_by_id_bound(disks: Seq<Disk>, id: Seq<char>)
    ensures
        disk_index_by_id(disks, id) matches Some(i) ==> 0 <= i < disks.len(),
    decreases disks.len(),
{
    if disks.len() > 0 {
        lemma_disk_index_by_id_bound(disks.drop_first(), id);
    }
}

/// A found mount's disk index is in range.
pub proof fn lemma_disk_index_by_mount_bound(disks: Seq<Disk>, m: Seq<char>)
    ensures
        disk_index_by_mount(disks, m) matches Some(i) ==> 0 <= i < disks.len(),
    decreases disks.len(),
{
    if disks.len() > 0 {
        lemma_disk_index_by_mount_bound(disks.drop_first(), m);
    }
}

/// One mounted volume as the Windows inventory reports it: its stable
/// id, labels, size, mount roots, and where it sits on its disk.
#[derive(Clone, Debug)]
pub struct VolumeMount {
    pub id: String,
    pub label: Option<String>,
    pub fs: Option<String>,
    pub size_bytes: u64,
    pub mount_points: Vec<String>,
    pub disk_number: u32,
    pub offset_bytes: u64,
    pub length_bytes: u64,
}

/// One partition as the Windows drive-layout inventory reports it.
#[derive(Clone, Copy, Debug, PartialEq, Eq, Structural)]
pub struct PartitionEntry {
    pub number: u32,
    pub offset_bytes: u64,
    pub length_bytes: u64,
}

} // verus!
