use crate::command;
use crate::command::{Command, NextStep, NextStepView, Planned};
use crate::config::OSConfig;
use crate::direct;
use crate::direct::{DirectManager, FileAction, FileActionView, FilesSeen};
use crate::factory::{OsConfigurator, OsConfiguratorView};
use crate::mode;
use crate::mode::{
    Answer, AnswerView, DetectError, Detection, Question, QuestionView, Remark, Stage, StageView,
};
use crate::resolvconf::ResolvconfManager;
use crate::resolved::ResolvedManager;
use crate::resolver;
use crate::resolver::{Nameserver, NameserverView, Refusal, ResolverError};
use crate::text;
use vstd::prelude::*;

verus! {

/// A list of strings is seen as the list of their texts.
pub proof fn strings_are_seen_as_texts(v: Seq<String>, i: int)
    ensures
        text::texts(v).len() == v.len(),
        0 <= i < v.len() ==> text::texts(v)[i] == v[i]@,
        text::opt_text(None) is None,
        0 <= i < v.len() ==> text::opt_text(Some(v[i])) == Some(v[i]@),
{
}

/// A list of slices is seen as the list of what they hold.
pub proof fn slices_are_seen_as_runs<T>(v: Seq<&[T]>, i: int)
    ensures
        text::pieces(v).len() == v.len(),
        0 <= i < v.len() ==> text::pieces(v)[i] == v[i]@,
{
}

/// Settings are seen as the texts of their three lists.
pub proof fn settings_are_seen_whole(cfg: OSConfig)
    ensures
        cfg@.nameservers == text::texts(cfg.nameservers@),
        cfg@.search_domains == text::texts(cfg.search_domains@),
        cfg@.match_domains == text::texts(cfg.match_domains@),
{
}

/// A command is seen with its program, its arguments and its input.
pub proof fn commands_are_seen_whole(c: Command, p: Planned, plan: Seq<Planned>, i: int)
    ensures
        c@.program == c.program@,
        c@.args == text::texts(c.args@),
        c@.stdin == text::opt_text(c.stdin),
        p@.name == p.name@,
        p@.command == p.command@,
        command::planned(plan).len() == plan.len(),
        0 <= i < plan.len() ==> command::planned(plan)[i] == plan[i]@,
{
}

/// A step is seen as what it is: a command to run, success, or a failure with its message.
pub proof fn steps_are_seen_whole(c: Command, message: String)
    ensures
        NextStep::Run(c)@ == NextStepView::Run(c@),
        NextStep::Done(Ok(()))@ == NextStepView::Done(Ok(())),
        NextStep::Done(Err(message))@ == NextStepView::Done(Err(message@)),
{
}

/// What there is to see of the files is seen whole.
pub proof fn files_are_seen_whole(seen: FilesSeen)
    ensures
        seen@.conf_text == text::opt_text(seen.conf_text),
        seen@.conf_exists == seen.conf_exists,
        seen@.backup_exists == seen.backup_exists,
{
}

/// An action is seen as what it is, with all its texts, and a list of them in order.
pub proof fn actions_are_seen_whole(a: String, b: String, v: Seq<FileAction>, i: int)
    ensures
        (FileAction::Copy { from: a, to: b })@ == (FileActionView::Copy { from: a@, to: b@ }),
        (FileAction::Write { path: a, content: b })@ == (FileActionView::Write {
            path: a@,
            content: b@,
        }),
        (FileAction::Remove { path: a })@ == (FileActionView::Remove { path: a@ }),
        direct::actions(v).len() == v.len(),
        0 <= i < v.len() ==> direct::actions(v)[i] == v[i]@,
{
}

/// A nameserver is seen with all bytes of its address, and a list of them in order.
pub proof fn nameservers_are_seen_whole(
    a: u8,
    b: u8,
    c: u8,
    d: u8,
    bits: u128,
    scope: Option<String>,
    v: Seq<Nameserver>,
    i: int,
)
    ensures
        Nameserver::V4(a, b, c, d)@ == NameserverView::V4(a, b, c, d),
        Nameserver::V6(bits, scope)@ == NameserverView::V6(bits, text::opt_text(scope)),
        resolver::addresses(v).len() == v.len(),
        0 <= i < v.len() ==> resolver::addresses(v)[i] == v[i]@,
{
}

/// A refusal is seen as what it is, with what the parser says, and says what it is.
pub proof fn refusals_are_seen_whole(message: String)
    ensures
        ResolverError::Unparsable(message)@ == Refusal::Unparsable(message@),
        ResolverError::NoNameservers@ is NoNameservers,
        ResolverError::OtherNameserver@ is OtherNameserver,
        Refusal::Unparsable(message@).text() == message@,
        Refusal::NoNameservers.text() == "resolv.conf has no nameservers"@,
        Refusal::OtherNameserver.text() == "resolv.conf doesn't point to systemd-resolved"@,
{
}

/// A verdict, and what parsing gave, is seen as success or failure with what comes with it.
pub proof fn verdicts_are_seen_whole<T>(
    value: T,
    e: ResolverError,
    nameservers: Vec<Nameserver>,
    message: String,
)
    ensures
        resolver::verdict_of(Ok(value)) == Ok::<T, Refusal>(value),
        resolver::verdict_of(Err::<T, ResolverError>(e)) == Err::<T, Refusal>(e@),
        resolver::parsed_of(Ok(nameservers)) == Ok::<Seq<NameserverView>, text::Text>(
            resolver::addresses(nameservers@),
        ),
        resolver::parsed_of(Err(message)) == Err::<Seq<NameserverView>, text::Text>(message@),
{
}

/// A question is seen as what it is, with all its texts.
pub proof fn questions_are_seen_whole(a: String, b: String)
    ensures
        (Question::Ping { name: a, object_path: b })@ == (QuestionView::Ping {
            name: a@,
            object_path: b@,
        }),
        (Question::ReadFile { path: a })@ == (QuestionView::ReadFile { path: a@ }),
        Question::NmIsUsingResolved@ is NmIsUsingResolved,
        Question::ResolvconfStyle@ is ResolvconfStyle,
{
}

/// An answer is seen as what it is, with all that it says.
pub proof fn answers_are_seen_whole(yes: bool, bytes: Vec<u8>, s: String)
    ensures
        Answer::Ping(yes)@ == AnswerView::Ping(yes),
        Answer::File(Ok(bytes))@ == AnswerView::File(Ok(bytes@)),
        Answer::File(Err(s))@ == AnswerView::File(Err(s@)),
        Answer::NmIsUsingResolved(yes)@ == AnswerView::NmIsUsingResolved(yes),
        Answer::ResolvconfStyle(s)@ == AnswerView::ResolvconfStyle(s@),
{
}

/// A stage is seen as what it is, with all that is known there.
pub proof fn stages_are_seen_whole(yes: bool, bytes: Vec<u8>, s: String, e: DetectError)
    ensures
        Stage::Ping@ is Ping,
        (Stage::ResolvConf { resolved_up: yes })@ == (StageView::ResolvConf { resolved_up: yes }),
        (Stage::Nsswitch { content: bytes })@ == (StageView::Nsswitch { content: bytes@ }),
        Stage::NetworkManager@ is NetworkManager,
        (Stage::Style { by_nm: yes })@ == (StageView::Style { by_nm: yes }),
        Stage::Done(Ok(s))@ == StageView::Done(Ok(s@)),
        Stage::Done(Err(e))@ == StageView::Done(Err(e@)),
        mode::outcome_of(Ok(s)) == Ok::<text::Text, mode::DetectErrorView>(s@),
        mode::outcome_of(Err(e)) == Err::<text::Text, mode::DetectErrorView>(e@),
        e@.context == e.context@,
        e@.cause == e.cause@,
{
}

/// Detection is seen with its stage, all remarks in order, and the reason of a refusal.
pub proof fn detection_is_seen_whole(d: Detection, r: Remark, i: int)
    ensures
        d@.stage == d.stage@,
        d@.trail.len() == d.trail@.len(),
        0 <= i < d.trail@.len() ==> d@.trail[i] == d.trail@[i]@,
        d.refused is None ==> d@.refused is None,
        d.refused matches Some(e) ==> d@.refused == Some(e@),
        r@.key == r.key@,
        r@.value == r.value@,
{
}

/// A configurator is seen as its manager.
pub proof fn configurators_are_seen_whole(
    a: ResolvedManager,
    b: ResolvconfManager,
    c: DirectManager,
)
    ensures
        OsConfigurator::Resolved(a)@ == OsConfiguratorView::Resolved(a@),
        OsConfigurator::Resolvconf(b)@ == OsConfiguratorView::Resolvconf(b@),
        OsConfigurator::Direct(c)@ is Direct,
{
}

} // verus!
