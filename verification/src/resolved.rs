use crate::command;
use crate::command::{
    Command, CommandView, Exit, NextStep, NextStepView, Planned, PlannedView,
};
use crate::config::{OSConfig, OSConfigView};
use crate::text;
use crate::text::Text;
use crate::text_laws;
use vstd::prelude::*;
use vstd::string::StringExecFns;

verus! {

/// Configures DNS via systemd-resolved using the `resolvectl` CLI.
/// Sets per-interface DNS and routing domains so only matching queries
/// are sent to the EasyTier DNS server.
#[derive(Debug, PartialEq, Eq)]
pub struct ResolvedManager {
    tun_name: String,
}

impl View for ResolvedManager {
    type V = Text;

    /// The name of the interface.
    closed spec fn view(&self) -> Text {
        self.tun_name@
    }
}

/// The argument that marks a domain as one for routing only.
pub open spec fn routing_domain(domain: Text) -> Text {
    "~"@ + text::trim_dots(domain)
}

/// The arguments that mark domains as ones for routing only.
pub open spec fn routing_domains(domains: Seq<Text>) -> Seq<Text> {
    domains.map_values(|domain: Text| routing_domain(domain))
}

/// `resolvectl` with the given arguments.
pub open spec fn resolvectl(args: Seq<Text>) -> CommandView {
    CommandView { program: "resolvectl"@, args, stdin: None }
}

/// The commands that apply a configuration to an interface.
pub open spec fn set_dns_plan(tun_name: Text, cfg: OSConfigView) -> Seq<PlannedView> {
    seq![
        PlannedView {
            name: "resolvectl dns"@,
            command: resolvectl(seq!["dns"@, tun_name] + cfg.nameservers),
        },
        PlannedView {
            name: "resolvectl domain"@,
            command: resolvectl(seq!["domain"@, tun_name] + routing_domains(cfg.match_domains)),
        },
    ]
}

impl ResolvedManager {
    /// The manager for the interface of the given name.
    pub fn new(tun_name: &str) -> (r: Self)
        ensures
            r@ == tun_name@,
    {
        ResolvedManager { tun_name: tun_name.to_string() }
    }

    /// The arguments that set the nameservers of the interface.
    fn dns_args(&self, cfg: &OSConfig) -> (r: Vec<String>)
        ensures
            text::texts(r@) == seq!["dns"@, self@] + cfg@.nameservers,
    {
        let mut args: Vec<String> = Vec::new();
        args.push("dns".to_string());
        args.push(self.tun_name.clone());
        let ghost all = cfg@.nameservers;
        assert(text::texts(args@) == seq!["dns"@, self@] + all.take(0));
        for i in 0..cfg.nameservers.len()
            invariant
                all == text::texts(cfg.nameservers@),
                text::texts(args@) == seq!["dns"@, self@] + all.take(i as int),
        {
            let ghost before = text::texts(args@);
            args.push(cfg.nameservers[i].clone());
            assert(text::texts(args@) == before.push(all[i as int]));
            assert(all.take(i + 1) == all.take(i as int).push(all[i as int]));
        }
        assert(all.take(all.len() as int) == all);
        args
    }

    /// The arguments that set the routing domains of the interface.
    fn domain_args(&self, cfg: &OSConfig) -> (r: Vec<String>)
        ensures
            text::texts(r@) == seq!["domain"@, self@] + routing_domains(cfg@.match_domains),
    {
        let mut args: Vec<String> = Vec::new();
        args.push("domain".to_string());
        args.push(self.tun_name.clone());
        let ghost all = cfg@.match_domains;
        assert(text::texts(args@) == seq!["domain"@, self@] + routing_domains(all.take(0)));
        for i in 0..cfg.match_domains.len()
            invariant
                all == text::texts(cfg.match_domains@),
                text::texts(args@) == seq!["domain"@, self@] + routing_domains(
                    all.take(i as int),
                ),
        {
            let ghost before = text::texts(args@);
            let mut arg = "~".to_string();
            arg.append(text::without_dots(cfg.match_domains[i].as_str()).as_str());
            args.push(arg);
            assert(text::texts(args@) == before.push(arg@));
            assert(all.take(i + 1) == all.take(i as int).push(all[i as int]));
            assert(routing_domains(all.take(i + 1)) == routing_domains(all.take(i as int)).push(
                arg@,
            ));
        }
        assert(all.take(all.len() as int) == all);
        args
    }

    /// What to do next to apply a configuration, after the commands that have ended
    /// so far.
    pub fn set_dns(&self, cfg: &OSConfig, exits: &Vec<Exit>) -> (r: NextStep)
        ensures
            r@ == command::step_after(set_dns_plan(self@, cfg@), exits@),
    {
        let mut plan: Vec<Planned> = Vec::new();
        plan.push(
            Planned {
                name: "resolvectl dns".to_string(),
                command: Command {
                    program: "resolvectl".to_string(),
                    args: self.dns_args(cfg),
                    stdin: None,
                },
            },
        );
        plan.push(
            Planned {
                name: "resolvectl domain".to_string(),
                command: Command {
                    program: "resolvectl".to_string(),
                    args: self.domain_args(cfg),
                    stdin: None,
                },
            },
        );
        assert(command::planned(plan@) == set_dns_plan(self@, cfg@));
        command::next_step(plan, exits)
    }

    /// The command that undoes all settings of the interface. It may fail if the
    /// interface is already gone, which is fine.
    pub fn close(&self) -> (r: Command)
        ensures
            r@ == resolvectl(seq!["revert"@, self@]),
    {
        let mut args: Vec<String> = Vec::new();
        args.push("revert".to_string());
        args.push(self.tun_name.clone());
        assert(text::texts(args@) == seq!["revert"@, self@]);
        Command { program: "resolvectl".to_string(), args, stdin: None }
    }
}

/// Every domain is passed on as one for routing only, without dots at its end: each
/// argument is a `~` and the domain, and does not end with a dot.
pub proof fn domains_are_for_routing_only(domains: Seq<Text>, i: int)
    requires
        0 <= i < domains.len(),
    ensures
        routing_domains(domains).len() == domains.len(),
        routing_domains(domains)[i].len() > 0,
        routing_domains(domains)[i][0] == '~',
        routing_domains(domains)[i].skip(1) == text::trim_dots(domains[i]),
        routing_domains(domains)[i].last() != '.',
{
    reveal_strlit("~");
    text_laws::dots_are_trimmed(domains[i]);
    assert(routing_domains(domains)[i].skip(1) == text::trim_dots(domains[i]));
}

/// The domains are set only after the nameservers were set with success.
pub proof fn domains_are_set_after_the_nameservers(
    tun_name: Text,
    cfg: OSConfigView,
    exits: Seq<Exit>,
)
    ensures
        command::step_after(set_dns_plan(tun_name, cfg), exits) == NextStepView::Run(
            set_dns_plan(tun_name, cfg)[1].command,
        ) ==> exits.len() == 1 && exits[0].success,
{
    let plan = set_dns_plan(tun_name, cfg);
    command::commands_are_run_in_order(plan, exits);
    reveal_strlit("dns");
    reveal_strlit("domain");
    if exits.len() == 0 {
        assert("dns"@.len() != "domain"@.len());
        assert(plan[0].command.args[0] == "dns"@);
        assert(plan[1].command.args[0] == "domain"@);
    }
    assert(command::all_succeeded(exits, 1) ==> exits[0].success);
}

/// Two commands are run, each `resolvectl` on the interface: the first with all nameservers
/// as they are, the second with all routing domains, in order and with nothing else.
pub proof fn both_commands_are_for_the_interface(tun_name: Text, cfg: OSConfigView, i: int)
    ensures
        ({
            let plan = set_dns_plan(tun_name, cfg);
            let dns = plan[0].command;
            let domain = plan[1].command;
            &&& plan.len() == 2
            &&& plan[0].name == "resolvectl dns"@ && plan[1].name == "resolvectl domain"@
            &&& dns.program == "resolvectl"@ && domain.program == "resolvectl"@
            &&& dns.stdin is None && domain.stdin is None
            &&& dns.args.len() == 2 + cfg.nameservers.len()
            &&& domain.args.len() == 2 + cfg.match_domains.len()
            &&& dns.args[0] == "dns"@ && dns.args[1] == tun_name
            &&& domain.args[0] == "domain"@ && domain.args[1] == tun_name
            &&& 0 <= i < cfg.nameservers.len() ==> dns.args[2 + i] == cfg.nameservers[i]
            &&& 0 <= i < cfg.match_domains.len() ==> domain.args[2 + i] == "~"@ + text::trim_dots(
                cfg.match_domains[i],
            )
        }),
{
}

/// `resolvectl` is run with the arguments given and with no input.
pub proof fn resolvectl_gets_its_arguments(args: Seq<Text>)
    ensures
        resolvectl(args).program == "resolvectl"@,
        resolvectl(args).args == args,
        resolvectl(args).stdin is None,
{
}

} // verus!
