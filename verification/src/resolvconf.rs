use crate::command;
use crate::command::{Command, CommandView, Exit, NextStep, Planned, PlannedView};
use crate::conf;
use crate::conf_laws;
use crate::config::{OSConfig, OSConfigView};
use crate::text;
use crate::text::Text;
use crate::text_laws;
use vstd::prelude::*;
use vstd::string::StringExecFns;
use vstd::utf8;

verus! {

/// Configures DNS via the `resolvconf` tool (works for both Debian resolvconf
/// and OpenResolv).
#[derive(Debug, PartialEq, Eq)]
pub struct ResolvconfManager {
    iface_label: String,
}

impl View for ResolvconfManager {
    type V = Text;

    /// The label under which the settings are registered.
    closed spec fn view(&self) -> Text {
        self.iface_label@
    }
}

/// The label for an interface. The convention is `<ifname>.<program>`, so that
/// different programs do not collide.
pub open spec fn label(tun_name: Text) -> Text {
    tun_name + ".easytier"@
}

/// The settings to register, in the form of a `resolv.conf`.
pub open spec fn settings(cfg: OSConfigView) -> Text {
    conf::nameserver_lines(cfg.nameservers) + conf::search_line(
        text::trim_dots_all(cfg.search_domains),
    )
}

/// The commands that apply a configuration under a label.
pub open spec fn set_dns_plan(label: Text, cfg: OSConfigView) -> Seq<PlannedView> {
    seq![
        PlannedView {
            name: "resolvconf -a"@,
            command: CommandView {
                program: "resolvconf"@,
                args: seq!["-a"@, label, "-m"@, "0"@],
                stdin: Some(settings(cfg)),
            },
        },
    ]
}

impl ResolvconfManager {
    /// The manager for the interface of the given name.
    pub fn new(tun_name: &str) -> (r: Self)
        ensures
            r@ == label(tun_name@),
    {
        let mut iface_label = tun_name.to_string();
        iface_label.append(".easytier");
        ResolvconfManager { iface_label }
    }

    /// What to do next to apply a configuration, after the commands that have ended
    /// so far.
    pub fn set_dns(&self, cfg: &OSConfig, exits: &Vec<Exit>) -> (r: NextStep)
        ensures
            r@ == command::step_after(set_dns_plan(self@, cfg@), exits@),
    {
        let mut content = String::new();
        conf::push_nameserver_lines(&mut content, &cfg.nameservers);
        let domains = text::all_without_dots(&cfg.search_domains);
        conf::push_search_line(&mut content, &domains);
        assert(content@ == settings(cfg@));

        let mut args: Vec<String> = Vec::new();
        args.push("-a".to_string());
        args.push(self.iface_label.clone());
        args.push("-m".to_string());
        args.push("0".to_string());
        assert(text::texts(args@) == seq!["-a"@, self@, "-m"@, "0"@]);

        let mut plan: Vec<Planned> = Vec::new();
        plan.push(
            Planned {
                name: "resolvconf -a".to_string(),
                command: Command {
                    program: "resolvconf".to_string(),
                    args,
                    stdin: Some(content),
                },
            },
        );
        assert(command::planned(plan@) == set_dns_plan(self@, cfg@));
        command::next_step(plan, exits)
    }

    /// The command that takes the settings back. Its outcome does not matter.
    pub fn close(&self) -> (r: Command)
        ensures
            r@ == (CommandView {
                program: "resolvconf"@,
                args: seq!["-d"@, self@],
                stdin: None,
            }),
    {
        let mut args: Vec<String> = Vec::new();
        args.push("-d".to_string());
        args.push(self.iface_label.clone());
        assert(text::texts(args@) == seq!["-d"@, self@]);
        Command { program: "resolvconf".to_string(), args, stdin: None }
    }
}

/// What trying out `resolvconf --version` showed.
#[derive(Debug, PartialEq, Eq)]
pub enum StyleProbe {
    /// There is no `resolvconf`.
    NotInstalled,
    /// It could not be run, for this reason, if the system gave one.
    NotRun { os_error: Option<i32> },
    /// It ran and wrote this.
    Ran { stdout: Vec<u8> },
}

/// The name of the implementation of `resolvconf`: Debian's is told by the error 99
/// or by what it says of itself, and any other that runs is taken to be OpenResolv.
pub open spec fn style(probe: StyleProbe) -> Text {
    match probe {
        StyleProbe::NotInstalled => Seq::empty(),
        StyleProbe::NotRun { os_error } => if os_error == Some(99i32) {
            "debian"@
        } else {
            Seq::empty()
        },
        StyleProbe::Ran { stdout } => if utf8::encode_utf8("Debian resolvconf"@).is_prefix_of(
            stdout@,
        ) {
            "debian"@
        } else {
            "openresolv"@
        },
    }
}

/// Whether `s` starts with `p`.
fn has_byte_prefix(s: &[u8], p: &[u8]) -> (r: bool)
    ensures
        r == p@.is_prefix_of(s@),
{
    if p.len() > s.len() {
        return false;
    }
    for i in 0..p.len()
        invariant
            p@.len() <= s@.len(),
            forall|j: int| 0 <= j < i ==> p@[j] == s@[j],
    {
        if p[i] != s[i] {
            assert(s@.subrange(0, p@.len() as int)[i as int] == s@[i as int]);
            return false;
        }
    }
    assert(p@ == s@.subrange(0, p@.len() as int));
    true
}

/// Detect which resolvconf implementation is installed ("debian", "openresolv",
/// or "" if not present).
pub fn resolvconf_style(probe: &StyleProbe) -> (r: String)
    ensures
        r@ == style(*probe),
{
    match probe {
        StyleProbe::NotInstalled => String::new(),
        StyleProbe::NotRun { os_error } => {
            if let Some(code) = os_error {
                if *code == 99 {
                    return "debian".to_string();
                }
            }
            String::new()
        },
        StyleProbe::Ran { stdout } => {
            if has_byte_prefix(stdout.as_slice(), "Debian resolvconf".as_bytes()) {
                return "debian".to_string();
            }
            "openresolv".to_string()
        },
    }
}

/// The command whose outcome tells which implementation is installed, to be run only
/// if one is.
pub fn version_command(installed: bool) -> (r: Option<Command>)
    ensures
        r is Some <==> installed,
        r matches Some(command) ==> command@ == (CommandView {
            program: "resolvconf"@,
            args: seq!["--version"@],
            stdin: None,
        }),
{
    if !installed {
        return None;
    }
    let mut args: Vec<String> = Vec::new();
    args.push("--version".to_string());
    assert(text::texts(args@) == seq!["--version"@]);
    Some(Command { program: "resolvconf".to_string(), args, stdin: None })
}

/// Interfaces of different names have different labels.
pub proof fn labels_do_not_collide(a: Text, b: Text)
    requires
        label(a) == label(b),
    ensures
        a == b,
{
    let n = ".easytier"@.len();
    assert(label(a).len() == a.len() + n);
    assert(label(b).len() == b.len() + n);
    assert(label(a).take(a.len() as int) == a);
    assert(label(b).take(b.len() as int) == b);
}

/// What is registered reads back: the settings name the configured nameservers and
/// domains in order, and nothing else, if the nameservers are addresses and the domains,
/// without the dots at their ends, single words.
pub proof fn settings_read_back(cfg: OSConfigView)
    requires
        forall|i: int|
            0 <= i < cfg.nameservers.len() ==> conf_laws::is_address(
                #[trigger] cfg.nameservers[i],
            ),
        forall|i: int|
            0 <= i < cfg.search_domains.len() ==> text_laws::is_word(
                text::trim_dots(#[trigger] cfg.search_domains[i]),
            ),
    ensures
        conf::nameservers_in(text::lines(settings(cfg))) == cfg.nameservers,
        conf::searches_in(text::lines(settings(cfg))) == text::trim_dots_all(cfg.search_domains),
{
    let domains = text::trim_dots_all(cfg.search_domains);
    assert forall|i: int| 0 <= i < domains.len() implies text_laws::is_word(
        #[trigger] domains[i],
    ) by {
        assert(domains[i] == text::trim_dots(cfg.search_domains[i]));
    }
    conf_laws::rendered_entries_read_back(cfg.nameservers, domains);
}

/// The implementation is one of "debian" and "openresolv", or there is none; there is
/// none wherever `resolvconf` is not installed, and one wherever it runs.
pub proof fn styles_are_known(probe: StyleProbe)
    ensures
        style(probe) == "debian"@ || style(probe) == "openresolv"@ || style(probe).len() == 0,
        probe is NotInstalled ==> style(probe).len() == 0,
        probe is Ran ==> style(probe).len() > 0,
{
    reveal_strlit("debian");
    reveal_strlit("openresolv");
    assert("debian"@.len() > 0);
    assert("openresolv"@.len() > 0);
}

/// A label is the name of the interface with ".easytier" behind it.
pub proof fn labels_end_with_the_program(tun_name: Text)
    ensures
        label(tun_name) == tun_name + ".easytier"@,
{
}

/// One command is run, `resolvconf -a` for the label at metric 0, with the settings as its
/// input.
pub proof fn settings_are_registered_under_the_label(label: Text, cfg: OSConfigView)
    ensures
        ({
            let plan = set_dns_plan(label, cfg);
            &&& plan.len() == 1
            &&& plan[0].name == "resolvconf -a"@
            &&& plan[0].command.program == "resolvconf"@
            &&& plan[0].command.args == seq!["-a"@, label, "-m"@, "0"@]
            &&& plan[0].command.stdin == Some(settings(cfg))
        }),
{
}

/// The settings are a line for each configured nameserver, in order, then one line for the
/// configured domains without the dots at their ends, and nothing else. The domains for
/// routing do not matter.
pub proof fn settings_are_nameservers_then_domains(cfg: OSConfigView, other: Seq<Text>)
    ensures
        settings(cfg) == conf::nameserver_lines(cfg.nameservers) + conf::search_line(
            text::trim_dots_all(cfg.search_domains),
        ),
        settings(OSConfigView { match_domains: other, ..cfg }) == settings(cfg),
{
}

/// How the implementations are told apart: one that is not installed, or does not run for
/// another reason than error 99, is none; error 99 and an output that starts with "Debian
/// resolvconf" tell Debian's; every other output tells OpenResolv.
pub proof fn styles_are_told_by_error_and_output(code: Option<i32>, stdout: Vec<u8>)
    ensures
        style(StyleProbe::NotInstalled).len() == 0,
        code == Some(99i32) ==> style(StyleProbe::NotRun { os_error: code }) == "debian"@,
        code != Some(99i32) ==> style(StyleProbe::NotRun { os_error: code }).len() == 0,
        (exists|rest: Seq<u8>|
            stdout@ == #[trigger] (utf8::encode_utf8("Debian resolvconf"@) + rest)) ==> style(
            StyleProbe::Ran { stdout },
        ) == "debian"@,
        !(exists|rest: Seq<u8>|
            stdout@ == #[trigger] (utf8::encode_utf8("Debian resolvconf"@) + rest)) ==> style(
            StyleProbe::Ran { stdout },
        ) == "openresolv"@,
{
    let mark = utf8::encode_utf8("Debian resolvconf"@);
    let n = mark.len() as int;
    if exists|rest: Seq<u8>| stdout@ == #[trigger] (mark + rest) {
        let rest = choose|rest: Seq<u8>| stdout@ == #[trigger] (mark + rest);
        assert(stdout@.subrange(0, n) == mark);
        assert(mark.is_prefix_of(stdout@));
    }
    if mark.is_prefix_of(stdout@) {
        assert(stdout@ == mark + stdout@.skip(n));
    }
}

} // verus!
