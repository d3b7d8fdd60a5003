//! Addresses and names that are off limits.

use html_to_pdf_rust::network::{
    is_cloud_metadata_domain, is_ipv4_text, is_localhost_domain, is_metadata_ipv4, is_private_address,
    is_private_ipv4, is_private_ipv6, IpAddress,
};

#[test]
fn private_ipv4_blocks_end_where_they_should() {
    let private = [
        [127, 0, 0, 1], [127, 255, 255, 255], [10, 0, 0, 0], [10, 255, 255, 255], [172, 16, 0, 0],
        [172, 31, 255, 255], [192, 168, 0, 1], [169, 254, 169, 254], [224, 0, 0, 1],
        [239, 255, 255, 255], [240, 0, 0, 1], [255, 255, 255, 255], [0, 0, 0, 0],
    ];
    for ip in private {
        assert!(is_private_ipv4(ip), "{:?}", ip);
    }
    let public = [
        [126, 255, 255, 255], [128, 0, 0, 1], [9, 255, 255, 255], [11, 0, 0, 0], [172, 15, 0, 1],
        [172, 32, 0, 1], [192, 167, 0, 1], [192, 169, 0, 1], [169, 253, 0, 1], [169, 255, 0, 1],
        [223, 255, 255, 255], [0, 0, 0, 1], [8, 8, 8, 8], [100, 100, 100, 200],
    ];
    for ip in public {
        assert!(!is_private_ipv4(ip), "{:?}", ip);
    }
}

#[test]
fn private_ipv6_blocks_end_where_they_should() {
    for first in [0xff00_u16, 0xffff, 0xfe80, 0xfebf, 0xfc00, 0xfdff] {
        assert!(is_private_ipv6([first, 0, 0, 0, 0, 0, 0, 1]), "{:x}", first);
    }
    for first in [0xfeff_u16, 0xfec0, 0xfe7f, 0xfe00, 0xfbff, 0x2001, 0x0001] {
        assert!(!is_private_ipv6([first, 0, 0, 0, 0, 0, 0, 1]), "{:x}", first);
    }
    assert!(is_private_ipv6([0, 0, 0, 0, 0, 0, 0, 0]));
    assert!(is_private_ipv6([0, 0, 0, 0, 0, 0, 0, 1]));
    assert!(!is_private_ipv6([0, 0, 0, 0, 0, 0, 0, 2]));
    assert!(!is_private_ipv6([0, 0, 0, 0, 0, 0, 1, 1]));
    assert!(!is_private_ipv6([0, 0, 0, 0, 0, 0xffff, 0x7f00, 1]));
}

#[test]
fn an_address_is_judged_by_its_family() {
    assert!(is_private_address(&IpAddress::V4([10, 1, 2, 3])));
    assert!(!is_private_address(&IpAddress::V4([93, 184, 216, 34])));
    assert!(is_private_address(&IpAddress::V6([0xfe80, 0, 0, 0, 0, 0, 0, 1])));
    assert!(!is_private_address(&IpAddress::V6([0x2606, 0x2800, 0, 0, 0, 0, 0, 1])));
}

#[test]
fn the_names_of_this_machine_are_known() {
    for name in ["localhost", "127.0.0.1", "::1", "0.0.0.0", "::", "a.localhost", ".localhost"] {
        assert!(is_localhost_domain(name), "{}", name);
    }
    for name in ["", "localhost.example.com", "mylocalhost", "LOCALHOST", "127.0.0.2"] {
        assert!(!is_localhost_domain(name), "{}", name);
    }
}

#[test]
fn the_names_of_metadata_services_are_known() {
    let names = [
        "169.254.169.254", "metadata.google.internal", "metadata", "metadata.azure.com",
        "100.100.100.200", "192.0.0.192", "x.internal", "metadata.example.com", "metadata.",
    ];
    for name in names {
        assert!(is_cloud_metadata_domain(name), "{}", name);
    }
    for name in ["", "internal", "metadata2", "my.metadata.com", "example.com", "internal.com"] {
        assert!(!is_cloud_metadata_domain(name), "{}", name);
    }
}

#[test]
fn ipv4_addresses_are_told_from_other_texts() {
    for text in ["0.0.0.0", "127.0.0.1", "255.255.255.255", "1.20.100.9"] {
        assert!(is_ipv4_text(text), "{}", text);
    }
    let others = [
        "", "1.2.3", "1.2.3.4.5", "256.0.0.1", "01.2.3.4", "1.2.3.04", "1..2.3", "1.2.3.4.",
        ".1.2.3.4", "a.b.c.d", "1.2.3.1000", "0x1.2.3.4", " 1.2.3.4", "[::1]", "+1.2.3.4",
    ];
    for text in others {
        assert!(!is_ipv4_text(text), "{}", text);
    }
}

#[test]
fn the_addresses_of_metadata_services_are_known() {
    for ip in [[169, 254, 169, 254], [100, 100, 100, 200], [192, 0, 0, 192]] {
        assert!(is_metadata_ipv4(ip), "{:?}", ip);
    }
    for ip in [[169, 254, 169, 253], [100, 100, 100, 100], [192, 0, 0, 193], [0, 0, 0, 0]] {
        assert!(!is_metadata_ipv4(ip), "{:?}", ip);
    }
}
