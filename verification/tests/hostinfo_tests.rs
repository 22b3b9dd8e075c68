use phoenix_forge::hostinfo::{trim_os_value, unescape_mount};

#[test]
fn os_release_values_lose_quotes_and_space() {
    assert_eq!(trim_os_value("NAME=\"Debian GNU/Linux\""), "Debian GNU/Linux");
    assert_eq!(trim_os_value("VERSION= \"12 (bookworm)\" "), "12 (bookworm)");
    assert_eq!(trim_os_value("PRETTY_NAME=plain"), "plain");
    assert_eq!(trim_os_value("no separator here"), "");
}

#[test]
fn mount_escapes_decode() {
    assert_eq!(unescape_mount("/mnt/usb"), "/mnt/usb");
    assert_eq!(unescape_mount("/mnt/my\\040stick"), "/mnt/my stick");
    assert_eq!(unescape_mount("/mnt/a\\011b"), "/mnt/a\tb");
    // Two digits only: kept verbatim.
    assert_eq!(unescape_mount("/mnt/x\\12y"), "/mnt/x\\12y");
    // Three digits that name no byte: kept verbatim.
    assert_eq!(unescape_mount("/odd\\889"), "/odd\\889");
    assert_eq!(unescape_mount("trailing\\"), "trailing\\");
}
