use crate::encoding;
use crate::text;
use crate::text::Text;
use vstd::prelude::*;
use vstd::string::StringExecFns;

verus! {

/// A program to run.
#[derive(Debug, PartialEq, Eq)]
pub struct Command {
    /// The program.
    pub program: String,
    /// Its arguments.
    pub args: Vec<String>,
    /// What to write to its standard input, if anything.
    pub stdin: Option<String>,
}

/// The texts of a `Command`.
pub struct CommandView {
    pub program: Text,
    pub args: Seq<Text>,
    pub stdin: Option<Text>,
}

impl View for Command {
    type V = CommandView;

    open spec fn view(&self) -> CommandView {
        CommandView {
            program: self.program@,
            args: text::texts(self.args@),
            stdin: text::opt_text(self.stdin),
        }
    }
}

/// A command, with the name by which a failure of it is reported.
#[derive(Debug, PartialEq, Eq)]
pub struct Planned {
    pub name: String,
    pub command: Command,
}

/// The texts of a `Planned`.
pub struct PlannedView {
    pub name: Text,
    pub command: CommandView,
}

impl View for Planned {
    type V = PlannedView;

    open spec fn view(&self) -> PlannedView {
        PlannedView { name: self.name@, command: self.command@ }
    }
}

/// The texts of a list of planned commands.
pub open spec fn planned(v: Seq<Planned>) -> Seq<PlannedView> {
    v.map_values(|p: Planned| p@)
}

/// How a command ended.
#[derive(Debug, PartialEq, Eq)]
pub struct Exit {
    /// Whether it reported success.
    pub success: bool,
    /// What it wrote to its standard error.
    pub stderr: Vec<u8>,
}

/// What to do next.
#[derive(Debug, PartialEq, Eq)]
pub enum NextStep {
    /// Run a command.
    Run(Command),
    /// Nothing more: this is the outcome.
    Done(Result<(), String>),
}

/// The texts of a `NextStep`.
pub enum NextStepView {
    Run(CommandView),
    Done(Result<(), Text>),
}

impl View for NextStep {
    type V = NextStepView;

    open spec fn view(&self) -> NextStepView {
        match *self {
            NextStep::Run(command) => NextStepView::Run(command@),
            NextStep::Done(Ok(_)) => NextStepView::Done(Ok(())),
            NextStep::Done(Err(message)) => NextStepView::Done(Err(message@)),
        }
    }
}

/// What is reported of a command that failed, `shown` being what it wrote to its
/// standard error.
pub open spec fn failure(name: Text, shown: Text) -> Text {
    name + " failed: "@ + shown
}

/// What to do after the commands of a plan that have ended so far: report the
/// first that failed, or run the next one, or be done.
pub open spec fn step_after(plan: Seq<PlannedView>, exits: Seq<Exit>) -> NextStepView
    decreases plan.len(),
{
    if plan.len() == 0 {
        NextStepView::Done(Ok(()))
    } else if exits.len() == 0 {
        NextStepView::Run(plan[0].command)
    } else if !exits[0].success {
        NextStepView::Done(Err(failure(plan[0].name, encoding::utf8_lossy(exits[0].stderr@))))
    } else {
        step_after(plan.drop_first(), exits.drop_first())
    }
}

/// What is reported of a command that failed, `shown` being what it wrote to its
/// standard error.
pub fn failure_message(name: &str, shown: &str) -> (r: String)
    ensures
        r@ == failure(name@, shown@),
{
    let mut r = name.to_string();
    r.append(" failed: ");
    r.append(shown);
    r
}

/// What to do after the commands of a plan that have ended so far.
pub fn next_step(plan: Vec<Planned>, exits: &Vec<Exit>) -> (r: NextStep)
    ensures
        r@ == step_after(planned(plan@), exits@),
{
    let ghost all = planned(plan@);
    let mut rest = plan;
    let mut i: usize = 0;
    assert(all.skip(0) == all);
    assert(exits@.skip(0) == exits@);
    while i < rest.len()
        invariant
            all == planned(plan@),
            planned(rest@) == all,
            i <= rest@.len(),
            i <= exits@.len(),
            step_after(all, exits@) == step_after(all.skip(i as int), exits@.skip(i as int)),
        decreases rest@.len() - i,
    {
        assert(all[i as int] == rest@[i as int]@);
        if i == exits.len() {
            return NextStep::Run(rest.remove(i).command);
        }
        if !exits[i].success {
            let shown = encoding::lossy_text(exits[i].stderr.as_slice());
            return NextStep::Done(Err(failure_message(rest[i].name.as_str(), shown.as_str())));
        }
        assert(all.skip(i as int).drop_first() == all.skip(i + 1));
        assert(exits@.skip(i as int).drop_first() == exits@.skip(i + 1));
        i += 1;
    }
    NextStep::Done(Ok(()))
}

/// Whether the first `n` commands have ended, and with success.
pub open spec fn all_succeeded(exits: Seq<Exit>, n: int) -> bool {
    n <= exits.len() && forall|i: int| 0 <= i < n ==> (#[trigger] exits[i]).success
}

/// Commands that succeeded can be left out in front.
proof fn lemma_step_past(plan: Seq<PlannedView>, exits: Seq<Exit>, n: int)
    requires
        0 <= n <= plan.len(),
        all_succeeded(exits, n),
    ensures
        step_after(plan, exits) == step_after(plan.skip(n), exits.skip(n)),
    decreases n,
{
    if n == 0 {
        assert(plan.skip(0) == plan);
        assert(exits.skip(0) == exits);
    } else {
        assert(exits[0].success);
        assert forall|i: int| 0 <= i < n - 1 implies (
        #[trigger] exits.drop_first()[i]).success by {
            assert(exits[i + 1].success);
        }
        lemma_step_past(plan.drop_first(), exits.drop_first(), n - 1);
        assert(plan.drop_first().skip(n - 1) == plan.skip(n));
        assert(exits.drop_first().skip(n - 1) == exits.skip(n));
    }
}

/// A plan succeeds if and only if each of its commands has ended with success.
pub proof fn a_plan_succeeds_with_all_its_commands(plan: Seq<PlannedView>, exits: Seq<Exit>)
    ensures
        step_after(plan, exits) == NextStepView::Done(Ok(())) <==> plan.len() <= exits.len() && (
        forall|i: int| 0 <= i < plan.len() ==> (#[trigger] exits[i]).success),
    decreases plan.len(),
{
    if all_succeeded(exits, plan.len() as int) {
        lemma_step_past(plan, exits, plan.len() as int);
    } else if exits.len() > 0 && exits[0].success {
        a_plan_succeeds_with_all_its_commands(plan.drop_first(), exits.drop_first());
        if all_succeeded(exits.drop_first(), plan.len() - 1) {
            assert forall|i: int| 0 <= i < plan.len() implies (#[trigger] exits[i]).success by {
                if i > 0 {
                    assert(exits.drop_first()[i - 1].success);
                }
            }
        }
    }
}

/// The commands of a plan are run in order, each one only after those before it have
/// ended with success.
pub proof fn commands_are_run_in_order(plan: Seq<PlannedView>, exits: Seq<Exit>)
    ensures
        step_after(plan, exits) is Run <==> exits.len() < plan.len() && (forall|i: int|
            0 <= i < exits.len() ==> (#[trigger] exits[i]).success),
        step_after(plan, exits) matches NextStepView::Run(command) ==> command
            == plan[exits.len() as int].command,
    decreases plan.len(),
{
    if plan.len() > 0 && exits.len() > 0 && exits[0].success {
        let rest = exits.drop_first();
        commands_are_run_in_order(plan.drop_first(), rest);
        if all_succeeded(rest, rest.len() as int) {
            assert forall|i: int| 0 <= i < exits.len() implies (#[trigger] exits[i]).success by {
                if i > 0 {
                    assert(rest[i - 1].success);
                }
            }
        }
        if all_succeeded(exits, exits.len() as int) {
            assert forall|i: int| 0 <= i < rest.len() implies (#[trigger] rest[i]).success by {
                assert(exits[i + 1].success);
            }
        }
    }
}

/// The first command that fails ends a plan: what is reported is its name and what it
/// wrote to its standard error.
pub proof fn the_first_failure_is_reported(plan: Seq<PlannedView>, exits: Seq<Exit>, n: int)
    requires
        0 <= n < plan.len(),
        n < exits.len(),
        forall|i: int| 0 <= i < n ==> (#[trigger] exits[i]).success,
        !exits[n].success,
    ensures
        step_after(plan, exits) == NextStepView::Done(
            Err(failure(plan[n].name, encoding::utf8_lossy(exits[n].stderr@))),
        ),
{
    lemma_step_past(plan, exits, n);
    assert(plan.skip(n)[0] == plan[n]);
    assert(exits.skip(n)[0] == exits[n]);
}

/// What is reported of a command that failed starts with its name and ends with what it
/// wrote.
pub proof fn failures_name_the_command(name: Text, shown: Text)
    ensures
        failure(name, shown) == name + " failed: "@ + shown,
{
}

} // verus!
