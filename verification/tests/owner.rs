use dns_config::owner::resolv_owner;

#[test]
fn test_resolv_owner_systemd() {
    let content = b"# This is /run/systemd/resolve/stub-resolv.conf managed by systemd-resolved.\nnameserver 127.0.0.53\n";
    assert_eq!(resolv_owner(content), "systemd-resolved");
}

#[test]
fn test_resolv_owner_nm() {
    let content = b"# Generated by NetworkManager\nnameserver 192.168.1.1\nsearch example.com\n";
    assert_eq!(resolv_owner(content), "NetworkManager");
}

#[test]
fn test_resolv_owner_resolvconf() {
    let content = b"# Dynamic resolv.conf(5) file for glibc resolver(3) generated by resolvconf(8)\nnameserver 8.8.8.8\n";
    assert_eq!(resolv_owner(content), "resolvconf");
}

#[test]
fn test_resolv_owner_unknown() {
    let content = b"nameserver 8.8.8.8\nsearch local\n";
    assert_eq!(resolv_owner(content), "");
}

#[test]
fn the_last_comment_to_name_an_owner_counts() {
    let content = b"# Generated by NetworkManager\n# through resolvconf\nnameserver 1.1.1.1\n";
    assert_eq!(resolv_owner(content), "resolvconf");
    let content = b"# resolvconf\n# NetworkManager\n# nothing in particular\n";
    assert_eq!(resolv_owner(content), "NetworkManager");
}

#[test]
fn one_comment_names_the_owner_of_highest_rank() {
    assert_eq!(
        resolv_owner(b"# resolvconf, NetworkManager, systemd-resolved\n"),
        "systemd-resolved"
    );
    assert_eq!(resolv_owner(b"# resolvconf and NetworkManager\n"), "NetworkManager");
}

#[test]
fn blank_lines_and_white_space_belong_to_the_header() {
    let content = "\n  \t\r\n\u{a0}# made by resolvconf\r\nnameserver 1.1.1.1\n";
    assert_eq!(resolv_owner(content.as_bytes()), "resolvconf");
}

#[test]
fn only_the_header_counts() {
    let a = b"# NetworkManager\nsearch local\n# systemd-resolved\n";
    let b = b"# NetworkManager\nsearch local\n";
    assert_eq!(resolv_owner(a), "NetworkManager");
    assert_eq!(resolv_owner(b), "NetworkManager");
    assert_eq!(resolv_owner(b"; systemd-resolved\n# NetworkManager\n"), "");
}

#[test]
fn a_line_that_is_not_utf8_ends_the_header() {
    assert_eq!(resolv_owner(b"# NetworkManager\n# \xff resolvconf\n"), "NetworkManager");
    assert_eq!(resolv_owner(b"\xff\n# resolvconf\n"), "");
    assert_eq!(resolv_owner("# r\u{e9}solvconf \u{1f600} resolvconf".as_bytes()), "resolvconf");
}

#[test]
fn an_empty_file_has_no_owner() {
    assert_eq!(resolv_owner(b""), "");
    assert_eq!(resolv_owner(b"\n\n"), "");
    assert_eq!(resolv_owner(b"#"), "");
}

#[test]
fn names_are_matched_exactly() {
    assert_eq!(resolv_owner(b"# networkmanager Resolvconf systemd resolved\n"), "");
    assert_eq!(resolv_owner(b"#resolvconf"), "resolvconf");
    assert_eq!(resolv_owner(b"# resolv.conf\n"), "");
}
