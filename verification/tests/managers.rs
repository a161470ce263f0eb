use dns_config::command::{failure_message, next_step, Planned};
use dns_config::{
    mode_to_use, new_os_configurator, resolvconf_style, version_command, Command, DetectError,
    DirectManager, Exit, NextStep, OSConfig, OsConfigurator, ResolvconfManager, ResolvedManager,
    StyleProbe,
};

fn list(items: &[&str]) -> Vec<String> {
    items.iter().map(|s| s.to_string()).collect()
}

fn command(program: &str, args: &[&str], stdin: Option<&str>) -> Command {
    Command { program: program.to_string(), args: list(args), stdin: stdin.map(String::from) }
}

fn ok() -> Exit {
    Exit { success: true, stderr: b"ignored".to_vec() }
}

fn failed(stderr: &[u8]) -> Exit {
    Exit { success: false, stderr: stderr.to_vec() }
}

fn config() -> OSConfig {
    OSConfig {
        nameservers: list(&["100.100.100.101", "fe80::1"]),
        search_domains: list(&["et.net.", "lan"]),
        match_domains: list(&["et.net.", "a..", "b", "."]),
    }
}

#[test]
fn resolved_sets_nameservers_then_domains() {
    let manager = ResolvedManager::new("tun0");
    let cfg = config();
    assert_eq!(
        manager.set_dns(&cfg, &vec![]),
        NextStep::Run(command("resolvectl", &["dns", "tun0", "100.100.100.101", "fe80::1"], None))
    );
    assert_eq!(
        manager.set_dns(&cfg, &vec![ok()]),
        NextStep::Run(command(
            "resolvectl",
            &["domain", "tun0", "~et.net", "~a", "~b", "~"],
            None
        ))
    );
    assert_eq!(manager.set_dns(&cfg, &vec![ok(), ok()]), NextStep::Done(Ok(())));
}

#[test]
fn resolved_reports_the_command_that_failed() {
    let manager = ResolvedManager::new("tun0");
    assert_eq!(
        manager.set_dns(&config(), &vec![failed(b"no such link\n")]),
        NextStep::Done(Err("resolvectl dns failed: no such link\n".to_string()))
    );
    assert_eq!(
        manager.set_dns(&config(), &vec![ok(), failed(b"")]),
        NextStep::Done(Err("resolvectl domain failed: ".to_string()))
    );
}

#[test]
fn what_a_command_says_need_not_be_text() {
    let manager = ResolvedManager::new("tun0");
    assert_eq!(
        manager.set_dns(&config(), &vec![failed(b"a\xffb \xe2\x82\xac")]),
        NextStep::Done(Err("resolvectl dns failed: a\u{fffd}b \u{20ac}".to_string()))
    );
}

#[test]
fn resolved_without_settings_passes_none_on() {
    let manager = ResolvedManager::new("et");
    let cfg = OSConfig::default();
    assert_eq!(
        manager.set_dns(&cfg, &vec![]),
        NextStep::Run(command("resolvectl", &["dns", "et"], None))
    );
    assert_eq!(
        manager.set_dns(&cfg, &vec![ok()]),
        NextStep::Run(command("resolvectl", &["domain", "et"], None))
    );
}

#[test]
fn resolved_reverts_on_close() {
    assert_eq!(
        ResolvedManager::new("tun0").close(),
        command("resolvectl", &["revert", "tun0"], None)
    );
}

#[test]
fn resolvconf_registers_settings() {
    let manager = ResolvconfManager::new("tun0");
    assert_eq!(
        manager.set_dns(&config(), &vec![]),
        NextStep::Run(command(
            "resolvconf",
            &["-a", "tun0.easytier", "-m", "0"],
            Some("nameserver 100.100.100.101\nnameserver fe80::1\nsearch et.net lan\n")
        ))
    );
    assert_eq!(manager.set_dns(&config(), &vec![ok()]), NextStep::Done(Ok(())));
    assert_eq!(
        manager.set_dns(&config(), &vec![failed(b"denied")]),
        NextStep::Done(Err("resolvconf -a failed: denied".to_string()))
    );
}

#[test]
fn resolvconf_without_settings_registers_nothing() {
    assert_eq!(
        ResolvconfManager::new("x").set_dns(&OSConfig::default(), &vec![]),
        NextStep::Run(command("resolvconf", &["-a", "x.easytier", "-m", "0"], Some("")))
    );
}

#[test]
fn resolvconf_takes_settings_back_on_close() {
    assert_eq!(
        ResolvconfManager::new("tun0").close(),
        command("resolvconf", &["-d", "tun0.easytier"], None)
    );
}

#[test]
fn labels_do_not_collide() {
    assert_ne!(ResolvconfManager::new("tun0"), ResolvconfManager::new("tun1"));
    assert_ne!(ResolvconfManager::new("tun"), ResolvconfManager::new("tun.easytier"));
}

fn plan(names: &[&str]) -> Vec<Planned> {
    names
        .iter()
        .map(|name| Planned { name: name.to_string(), command: command(name, &[], None) })
        .collect()
}

#[test]
fn plans_stop_at_the_first_failure() {
    let names = ["a", "b", "c"];
    assert_eq!(next_step(plan(&[]), &vec![]), NextStep::Done(Ok(())));
    assert_eq!(next_step(plan(&names), &vec![ok()]), NextStep::Run(command("b", &[], None)));
    assert_eq!(
        next_step(plan(&names), &vec![ok(), failed(b"1"), failed(b"2")]),
        NextStep::Done(Err("b failed: 1".to_string()))
    );
    assert_eq!(next_step(plan(&names), &vec![ok(), ok(), ok()]), NextStep::Done(Ok(())));
    assert_eq!(failure_message("x -y", "z"), "x -y failed: z");
}

#[test]
fn styles_are_told_apart() {
    assert_eq!(resolvconf_style(&StyleProbe::NotInstalled), "");
    assert_eq!(resolvconf_style(&StyleProbe::NotRun { os_error: None }), "");
    assert_eq!(resolvconf_style(&StyleProbe::NotRun { os_error: Some(2) }), "");
    assert_eq!(resolvconf_style(&StyleProbe::NotRun { os_error: Some(99) }), "debian");
    for (stdout, style) in [
        (&b"Debian resolvconf 1.91\n"[..], "debian"),
        (&b"Debian resolvconf"[..], "debian"),
        (&b"Debian resolvcon"[..], "openresolv"),
        (&b" Debian resolvconf"[..], "openresolv"),
        (&b"openresolv 3.13.2\n"[..], "openresolv"),
        (&b""[..], "openresolv"),
        (&b"\xff"[..], "openresolv"),
    ] {
        assert_eq!(resolvconf_style(&StyleProbe::Ran { stdout: stdout.to_vec() }), style);
    }
}

#[test]
fn the_version_is_asked_only_of_what_is_installed() {
    assert_eq!(version_command(false), None);
    assert_eq!(version_command(true), Some(command("resolvconf", &["--version"], None)));
}

#[test]
fn each_mode_has_its_manager() {
    let pick = |mode: &str| new_os_configurator("tun0", Ok(mode.to_string()));
    assert_eq!(
        pick("systemd-resolved"),
        OsConfigurator::Resolved(ResolvedManager::new("tun0"))
    );
    assert_eq!(
        pick("debian-resolvconf"),
        OsConfigurator::Resolvconf(ResolvconfManager::new("tun0"))
    );
    assert_eq!(pick("openresolv"), OsConfigurator::Resolvconf(ResolvconfManager::new("tun0")));
    assert_eq!(pick("direct"), OsConfigurator::Direct(DirectManager::new()));
    assert_eq!(pick("something else"), OsConfigurator::Direct(DirectManager::new()));
}

#[test]
fn failed_detection_falls_back_to_direct() {
    let e = || DetectError {
        context: "reading /etc/resolv.conf".to_string(),
        cause: "Failed to read file".to_string(),
    };
    assert_eq!(mode_to_use(Err(e())), "direct");
    assert_eq!(mode_to_use(Ok("openresolv".to_string())), "openresolv");
    assert_eq!(new_os_configurator("tun0", Err(e())), OsConfigurator::Direct(DirectManager::new()));
}
