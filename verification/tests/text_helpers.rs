use grease::address::{IpAddr, SocketAddr};
use grease::text::{eq_ignore_ascii_case, push_decimal, push_str};

#[test]
fn decimal_rendering() {
    let mut s = String::from("n=");
    push_decimal(&mut s, 0);
    push_str(&mut s, ",");
    push_decimal(&mut s, 9);
    push_str(&mut s, ",");
    push_decimal(&mut s, 10);
    push_str(&mut s, ",");
    push_decimal(&mut s, 4096);
    assert_eq!(s, "n=0,9,10,4096");
}

#[test]
fn ascii_case_insensitive_comparison() {
    assert!(eq_ignore_ascii_case("Content-Length", "content-length"));
    assert!(eq_ignore_ascii_case("SERVER", "server"));
    assert!(!eq_ignore_ascii_case("Server", "Servers"));
    assert!(!eq_ignore_ascii_case("Server", "Serveq"));
    assert!(eq_ignore_ascii_case("", ""));
    assert!(!eq_ignore_ascii_case("é", "É"));
}

#[test]
fn v4_address() {
    let a = SocketAddr::v4(127, 0, 1, 1, 8000);
    assert_eq!(a.ip, IpAddr::V4(127, 0, 1, 1));
    assert_eq!(a.port, 8000);
}
