use version_compare::{compare, Cmp};
use dns_config::mode::{Remark, NSSWITCH_CONF, RESOLVED_NAME, RESOLVED_PATH};
use dns_config::network_manager::{relations_between, Relation};
use dns_config::nsswitch::libnss_resolve_listed;
use dns_config::resolver::{check_conf, check_nameservers, check_parsed, Nameserver};
use dns_config::{
    dns_mode, is_libnss_resolve_used, nm_is_using_resolved, nm_version_between,
    resolved_is_actually_resolver, Answer, DetectError, Detection, DirectManager, Evidence,
    NssError, OSConfig, Question, ResolverError, Stage,
};

const BY_RESOLVED: &str = "# managed by systemd-resolved\n\nnameserver 127.0.0.53\noptions edns0 trust-ad\nsearch lan\n";
const BY_NM: &str = "# Generated by NetworkManager\nnameserver 192.168.1.1\n";
const BY_RESOLVCONF: &str = "# generated by resolvconf(8)\nnameserver 8.8.8.8\n";
const NSS_RESOLVE: &str = "passwd: files\nhosts: files resolve [!UNAVAIL=return] dns\n";
const NSS_DNS: &str = "passwd: files\nhosts: files dns resolve\n";

/// A system to detect the mode of.
struct System {
    resolved_up: bool,
    conf: Result<Vec<u8>, String>,
    nsswitch: Result<Vec<u8>, String>,
    nm: bool,
    style: &'static str,
}

fn system(conf: &str) -> System {
    System {
        resolved_up: true,
        conf: Ok(conf.as_bytes().to_vec()),
        nsswitch: Ok(NSS_DNS.as_bytes().to_vec()),
        nm: true,
        style: "",
    }
}

/// Detects the mode, and tells what was asked.
fn detect(system: &System) -> (Detection, Vec<Question>) {
    let mut detection = dns_mode();
    let mut asked: Vec<Question> = Vec::new();
    while let Some(question) = detection.question() {
        let answer = match &question {
            Question::Ping { name, object_path } => {
                assert_eq!(name, RESOLVED_NAME);
                assert_eq!(object_path, RESOLVED_PATH);
                Answer::Ping(system.resolved_up)
            }
            Question::ReadFile { path } if path == "/etc/resolv.conf" => {
                Answer::File(system.conf.clone())
            }
            Question::ReadFile { path } => {
                assert_eq!(path, NSSWITCH_CONF);
                Answer::File(system.nsswitch.clone())
            }
            Question::NmIsUsingResolved => Answer::NmIsUsingResolved(system.nm),
            Question::ResolvconfStyle => Answer::ResolvconfStyle(system.style.to_string()),
        };
        asked.push(question);
        detection = detection.step(answer);
    }
    assert!(asked.len() <= 4);
    (detection, asked)
}

fn mode(system: &System) -> String {
    match detect(system).0.stage {
        Stage::Done(outcome) => outcome.unwrap(),
        stage => panic!("{:?}", stage),
    }
}

fn trail(system: &System) -> String {
    detect(system).0.trail_line().unwrap_or_default()
}

#[test]
fn dns_mode_test() {
    for conf in [BY_RESOLVED, BY_NM, BY_RESOLVCONF, "", "nameserver 8.8.8.8\n"] {
        for style in ["", "debian", "openresolv"] {
            let mut env = system(conf);
            env.style = style;
            let mode = mode(&env);
            println!("Detected DNS mode: {}", mode);
            assert!(["systemd-resolved", "debian-resolvconf", "openresolv", "direct"]
                .contains(&mode.as_str()));
        }
    }
}

#[test]
fn resolved_is_detected_by_its_stub() {
    let s = system(BY_RESOLVED);
    assert_eq!(mode(&s), "systemd-resolved");
    assert_eq!(trail(&s), "dns: [resolved-ping=yes rc=resolved resolved=file]");
}

#[test]
fn resolved_is_detected_by_nss() {
    let mut s = system("# systemd-resolved\nnameserver 1.1.1.1\n");
    s.resolved_up = false;
    s.nsswitch = Ok(NSS_RESOLVE.as_bytes().to_vec());
    assert_eq!(mode(&s), "systemd-resolved");
    assert_eq!(trail(&s), "dns: [rc=resolved resolved=nss]");
}

#[test]
fn resolved_that_is_not_in_use_means_direct() {
    let s = system("# systemd-resolved\nnameserver 127.0.0.53\nnameserver 1.1.1.1\n");
    let (detection, _) = detect(&s);
    assert!(matches!(detection.refused, Some(ResolverError::OtherNameserver)));
    assert_eq!(detection.stage, Stage::Done(Ok("direct".to_string())));
    assert_eq!(trail(&s), "dns: [resolved-ping=yes rc=resolved resolved=not-in-use]");

    let (detection, _) = detect(&system("# systemd-resolved\n"));
    assert!(matches!(detection.refused, Some(ResolverError::NoNameservers)));
    let (detection, _) = detect(&system("# systemd-resolved\nnameserver here\n"));
    assert!(matches!(detection.refused, Some(ResolverError::Unparsable(_))));
    assert_eq!(detection.stage, Stage::Done(Ok("direct".to_string())));
}

#[test]
fn an_unreadable_nsswitch_is_no_evidence() {
    let mut s = system(BY_RESOLVED);
    s.nsswitch = Err("Failed to read file".to_string());
    assert_eq!(mode(&s), "systemd-resolved");
    assert_eq!(trail(&s), "dns: [resolved-ping=yes rc=resolved resolved=file]");
    s.conf = Ok(b"# systemd-resolved\nnameserver 9.9.9.9\n".to_vec());
    assert_eq!(mode(&s), "direct");
}

#[test]
fn resolvconf_is_detected_with_its_style() {
    for (style, expected) in
        [("openresolv", "openresolv"), ("debian", "debian-resolvconf"), ("", "direct"), ("x", "direct")]
    {
        let mut s = system(BY_RESOLVCONF);
        s.style = style;
        s.resolved_up = false;
        assert_eq!(mode(&s), expected);
        assert_eq!(trail(&s), format!("dns: [rc=resolvconf resolvconf-style={}]", style));
    }
}

#[test]
fn network_manager_may_leave_dns_to_resolved() {
    let s = system(BY_NM);
    assert_eq!(mode(&s), "systemd-resolved");
    assert_eq!(trail(&s), "dns: [resolved-ping=yes rc=nm nm=resolved]");
}

#[test]
fn network_manager_is_asked_only_if_resolved_is_up() {
    let mut s = system(BY_NM);
    s.resolved_up = false;
    let (detection, asked) = detect(&s);
    assert!(!asked.contains(&Question::NmIsUsingResolved));
    assert_eq!(detection.stage, Stage::Done(Ok("direct".to_string())));
    assert_eq!(detection.trail_line(), Some("dns: [rc=nm nm=direct]".to_string()));
}

#[test]
fn network_manager_beside_resolvconf() {
    for (style, expected) in [
        ("openresolv", "openresolv"),
        ("debian", "debian-resolvconf"),
        ("other", "debian-resolvconf"),
    ] {
        let mut s = system(BY_NM);
        s.nm = false;
        s.style = style;
        assert_eq!(mode(&s), expected);
        assert_eq!(trail(&s), format!("dns: [resolved-ping=yes rc=nm nm=resolvconf-{}]", style));
    }
}

#[test]
fn a_missing_file_means_direct() {
    let mut s = system("");
    s.conf = Err("Kind(NotFound)".to_string());
    assert_eq!(mode(&s), "direct");
    assert_eq!(trail(&s), "dns: [resolved-ping=yes rc=missing]");
}

#[test]
fn an_unreadable_file_is_an_error() {
    let mut s = system("");
    s.conf = Err("Failed to read file".to_string());
    s.resolved_up = false;
    let (detection, _) = detect(&s);
    assert_eq!(detection.trail_line(), None);
    assert_eq!(
        detection.stage,
        Stage::Done(Err(DetectError {
            context: "reading /etc/resolv.conf".to_string(),
            cause: "Failed to read file".to_string(),
        }))
    );
}

#[test]
fn a_file_without_owner_means_direct() {
    let mut s = system("nameserver 8.8.8.8\n");
    s.resolved_up = false;
    assert_eq!(mode(&s), "direct");
    assert_eq!(trail(&s), "");
}

#[test]
fn direct_mode_is_stable() {
    let cfg = OSConfig {
        nameservers: vec!["100.100.100.101".to_string()],
        search_domains: vec!["systemd-resolved.".to_string()],
        match_domains: Vec::new(),
    };
    let written = DirectManager::new().new_content(&cfg, &Some(BY_NM.to_string()));
    let mut s = system(&written);
    s.style = "debian";
    assert_eq!(mode(&s), "direct");
}

#[test]
fn an_answer_to_another_question_changes_nothing() {
    let d = dns_mode().step(Answer::NmIsUsingResolved(true)).step(Answer::File(Ok(Vec::new())));
    assert_eq!(d.stage, Stage::Ping);
    let d = d.step(Answer::Ping(true));
    assert_eq!(d.stage, Stage::ResolvConf { resolved_up: true });
    assert_eq!(
        d.trail,
        vec![Remark { key: "resolved-ping".to_string(), value: "yes".to_string() }]
    );
    let d = d.step(Answer::Ping(false));
    assert_eq!(d.stage, Stage::ResolvConf { resolved_up: true });
    let d = d.step(Answer::File(Ok(Vec::new()))).step(Answer::Ping(false));
    assert_eq!(d.stage, Stage::Done(Ok("direct".to_string())));
    assert_eq!(d.question(), None);
}

#[test]
fn nss_modules_are_read_in_order() {
    assert_eq!(libnss_resolve_listed(NSS_RESOLVE), Ok(()));
    assert_eq!(libnss_resolve_listed(NSS_DNS), Err(NssError::DnsFirst));
    assert_eq!(libnss_resolve_listed("hosts: files\n"), Err(NssError::NotUsed));
    assert_eq!(libnss_resolve_listed(""), Err(NssError::NotUsed));
    assert_eq!(libnss_resolve_listed("hosts: files\nhosts:\tresolve\n"), Ok(()));
    assert_eq!(libnss_resolve_listed("hosts: dns\nhosts: resolve\n"), Err(NssError::DnsFirst));
    assert_eq!(libnss_resolve_listed("  hosts:  resolve"), Ok(()));
    assert_eq!(libnss_resolve_listed("#hosts: resolve\nhosts : resolve\n"), Err(NssError::NotUsed));
    assert_eq!(libnss_resolve_listed("hosts:resolve\nnetworks: dns\n"), Err(NssError::NotUsed));
    assert_eq!(libnss_resolve_listed("hosts: resolve4 mdns\r\nhosts: resolve\r\n"), Ok(()));
}

#[test]
fn nss_contents_need_not_be_text() {
    assert_eq!(is_libnss_resolve_used(b"\xff\nhosts: \xc3 resolve\n"), Ok(()));
    assert_eq!(is_libnss_resolve_used(b"hosts: resolve\xff dns\n"), Err(NssError::DnsFirst));
    assert_eq!(is_libnss_resolve_used("\u{e9}\nhosts: resolve\n".as_bytes()), Ok(()));
    assert_eq!(is_libnss_resolve_used(b"hosts: \xe2\x80\x83resolve\n"), Ok(()));
}

#[test]
fn nss_errors_have_messages() {
    assert_eq!(NssError::DnsFirst.message(), "dns module has higher priority");
    assert_eq!(NssError::NotUsed.message(), "libnss_resolve not used");
}

#[test]
fn later_nss_lines_change_nothing() {
    let decided = "hosts: files dns\n".to_string();
    assert_eq!(
        libnss_resolve_listed(&(decided.clone() + "hosts: resolve\n")),
        libnss_resolve_listed(&decided)
    );
}

#[test]
fn nameservers_must_all_be_the_stub() {
    let stub = || Nameserver::V4(127, 0, 0, 53);
    assert!(stub().is_stub());
    assert!(check_nameservers(&vec![stub(), stub()]).is_ok());
    assert!(matches!(check_nameservers(&vec![]), Err(ResolverError::NoNameservers)));
    for other in [
        Nameserver::V4(127, 0, 0, 54),
        Nameserver::V4(127, 0, 1, 53),
        Nameserver::V4(127, 1, 0, 53),
        Nameserver::V4(128, 0, 0, 53),
        Nameserver::V6(0x7f000035, None),
        Nameserver::V6(0xffff_7f00_0035, Some("lo".to_string())),
    ] {
        assert!(!other.is_stub());
        assert!(matches!(
            check_nameservers(&vec![stub(), other]),
            Err(ResolverError::OtherNameserver)
        ));
    }
}

#[test]
fn resolv_conf_is_parsed() {
    assert!(check_conf(b"nameserver 127.0.0.53\n").is_ok());
    assert!(check_conf(b"; c\n# \xff\nnameserver 127.0.0.53 # stub\nnameserver\t127.0.0.53").is_ok());
    assert!(matches!(check_conf(b""), Err(ResolverError::NoNameservers)));
    assert!(matches!(check_conf(b"search lan\n"), Err(ResolverError::NoNameservers)));
    assert!(matches!(
        check_conf(b"nameserver 127.0.0.53\nnameserver 8.8.8.8\n"),
        Err(ResolverError::OtherNameserver)
    ));
    assert!(matches!(
        check_conf(b"nameserver ::ffff:127.0.0.53\n"),
        Err(ResolverError::OtherNameserver)
    ));
    assert!(matches!(
        check_conf(b"nameserver fe80::1%eth0\n"),
        Err(ResolverError::OtherNameserver)
    ));
    assert!(matches!(
        check_conf(b"nameserver 127.0.0.53 127.0.0.53\n"),
        Err(ResolverError::Unparsable(_))
    ));
    assert!(matches!(check_conf(b"nameserver\n"), Err(ResolverError::Unparsable(_))));
    assert!(matches!(
        check_conf(b"nameserver 127.0.0.53\n\xff\n"),
        Err(ResolverError::Unparsable(_))
    ));
}

#[test]
fn evidence_of_nss_comes_first() {
    let stub = b"nameserver 127.0.0.53\n";
    let other = b"nameserver 1.1.1.1\n";
    let nss = Some(NSS_RESOLVE.as_bytes());
    assert!(matches!(resolved_is_actually_resolver(nss, stub), Ok(Evidence::Nss)));
    assert!(matches!(resolved_is_actually_resolver(nss, other), Ok(Evidence::Nss)));
    assert!(matches!(resolved_is_actually_resolver(nss, b"nameserver ?"), Ok(Evidence::Nss)));
    let dns = Some(NSS_DNS.as_bytes());
    assert!(matches!(resolved_is_actually_resolver(dns, stub), Ok(Evidence::File)));
    assert!(matches!(resolved_is_actually_resolver(None, stub), Ok(Evidence::File)));
    assert!(matches!(
        resolved_is_actually_resolver(None, other),
        Err(ResolverError::OtherNameserver)
    ));
}

#[test]
fn refusals_have_messages() {
    let message = |conf: &[u8]| check_conf(conf).unwrap_err().message();
    assert_eq!(message(b""), "resolv.conf has no nameservers");
    assert_eq!(
        message(b"nameserver 1.1.1.1"),
        "resolv.conf doesn't point to systemd-resolved"
    );
    assert_eq!(
        message(b"nameserver ?"),
        "directive at line 0 contains invalid IP: invalid IP address syntax"
    );
}

#[test]
fn the_error_of_the_parser_is_handed_on() {
    for conf in [
        &b"nameserver ?"[..],
        &b"# c\nnameserver 127.0.0.53 127.0.0.53\n"[..],
        &b"\nnameserver\n"[..],
        &b"nameserver 127.0.0.53\n\xff\nnameserver\n"[..],
        &b"options none\n"[..],
        &b"options ndots:x\n"[..],
        &b"other\n"[..],
    ] {
        let expected = resolv_conf::Config::parse(conf).unwrap_err().to_string();
        assert_eq!(check_conf(conf), Err(ResolverError::Unparsable(expected.clone())));
        assert_eq!(check_conf(conf).unwrap_err().message(), expected);

        let owned = [&b"# systemd-resolved\n"[..], conf].concat();
        let expected = resolv_conf::Config::parse(&owned).unwrap_err().to_string();
        let (detection, _) = detect(&System { conf: Ok(owned), ..system("") });
        assert_eq!(detection.refused, Some(ResolverError::Unparsable(expected)));
    }
}

#[test]
fn what_parsing_gave_is_checked() {
    assert_eq!(check_parsed(Ok(vec![Nameserver::V4(127, 0, 0, 53)])), Ok(()));
    assert_eq!(
        check_parsed(Ok(vec![Nameserver::V4(8, 8, 8, 8)])),
        Err(ResolverError::OtherNameserver)
    );
    assert_eq!(check_parsed(Ok(Vec::new())), Err(ResolverError::NoNameservers));
    assert_eq!(
        check_parsed(Err("no".to_string())),
        Err(ResolverError::Unparsable("no".to_string()))
    );
}

#[test]
fn versions_are_never_taken_to_lie_between() {
    for version in ["1.26.0", "1.26.5", "1.26.6", "1.30", "x", ""] {
        assert!(!nm_version_between(version, "1.26.0", "1.26.5"));
    }
    assert!(!nm_version_between("1.26", "1.26", "1.26"));
}

#[test]
fn versions_are_compared_to_three_outcomes() {
    assert_eq!(compare("1.26.6", "1.26.5"), Ok(Cmp::Gt));
    assert_eq!(compare("1.26.5", "1.26.5"), Ok(Cmp::Eq));
    assert_eq!(compare("1.26.4", "1.26.5"), Ok(Cmp::Lt));
}

#[test]
fn relations_tell_what_lies_between() {
    let all = [
        None,
        Some(Relation::Eq),
        Some(Relation::Ne),
        Some(Relation::Lt),
        Some(Relation::Le),
        Some(Relation::Ge),
        Some(Relation::Gt),
    ];
    for first in all {
        for last in all {
            assert_eq!(
                relations_between(first, last),
                first == Some(Relation::Ge) && last == Some(Relation::Le)
            );
        }
    }
}

#[test]
fn network_manager_names_its_mode() {
    assert_eq!(nm_is_using_resolved(Some("systemd-resolved"), "x"), Ok(()));
    for mode in [None, Some(""), Some("dnsmasq"), Some("systemd-resolved ")] {
        assert_eq!(
            nm_is_using_resolved(mode, "Variant(\"dnsmasq\")"),
            Err("NetworkManager is not using systemd-resolved, found: Variant(\"dnsmasq\")".to_string())
        );
    }
}
