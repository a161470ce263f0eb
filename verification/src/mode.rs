use crate::direct::RESOLV_CONF;
use crate::owner;
use crate::resolver;
use crate::resolver::{Evidence, Refusal, ResolverError};
use crate::text;
use crate::text::Text;
use vstd::prelude::*;
use vstd::string::StringExecFns;

verus! {

/// The file that tells through which modules names are looked up.
pub const NSSWITCH_CONF: &'static str = "/etc/nsswitch.conf";

/// The name of systemd-resolved on D-Bus.
pub const RESOLVED_NAME: &'static str = "org.freedesktop.resolve1";

/// The object of systemd-resolved on D-Bus.
pub const RESOLVED_PATH: &'static str = "/org/freedesktop/resolve1";

/// Something about the system that detection has to know next.
#[derive(Debug, PartialEq, Eq)]
pub enum Question {
    /// Does the service answer on D-Bus?
    Ping { name: String, object_path: String },
    /// What does the file hold?
    ReadFile { path: String },
    /// Does NetworkManager leave DNS to systemd-resolved?
    NmIsUsingResolved,
    /// Which implementation of `resolvconf` is installed?
    ResolvconfStyle,
}

/// The texts of a `Question`.
pub enum QuestionView {
    Ping { name: Text, object_path: Text },
    ReadFile { path: Text },
    NmIsUsingResolved,
    ResolvconfStyle,
}

impl View for Question {
    type V = QuestionView;

    open spec fn view(&self) -> QuestionView {
        match *self {
            Question::Ping { name, object_path } => QuestionView::Ping {
                name: name@,
                object_path: object_path@,
            },
            Question::ReadFile { path } => QuestionView::ReadFile { path: path@ },
            Question::NmIsUsingResolved => QuestionView::NmIsUsingResolved,
            Question::ResolvconfStyle => QuestionView::ResolvconfStyle,
        }
    }
}

/// What was found out.
#[derive(Debug, PartialEq, Eq)]
pub enum Answer {
    /// Whether the service answered.
    Ping(bool),
    /// What the file holds, or the message of the error that reading it gave.
    File(Result<Vec<u8>, String>),
    /// Whether NetworkManager leaves DNS to systemd-resolved.
    NmIsUsingResolved(bool),
    /// The name of the implementation of `resolvconf`, empty if there is none.
    ResolvconfStyle(String),
}

/// The values of an `Answer`.
pub enum AnswerView {
    Ping(bool),
    File(Result<Seq<u8>, Text>),
    NmIsUsingResolved(bool),
    ResolvconfStyle(Text),
}

impl View for Answer {
    type V = AnswerView;

    open spec fn view(&self) -> AnswerView {
        match *self {
            Answer::Ping(up) => AnswerView::Ping(up),
            Answer::File(Ok(content)) => AnswerView::File(Ok(content@)),
            Answer::File(Err(message)) => AnswerView::File(Err(message@)),
            Answer::NmIsUsingResolved(yes) => AnswerView::NmIsUsingResolved(yes),
            Answer::ResolvconfStyle(style) => AnswerView::ResolvconfStyle(style@),
        }
    }
}

/// Why no mode was detected.
#[derive(Debug, PartialEq, Eq)]
pub struct DetectError {
    /// What was being done.
    pub context: String,
    /// The message of the error that this gave.
    pub cause: String,
}

/// The texts of a `DetectError`.
pub struct DetectErrorView {
    pub context: Text,
    pub cause: Text,
}

impl View for DetectError {
    type V = DetectErrorView;

    open spec fn view(&self) -> DetectErrorView {
        DetectErrorView { context: self.context@, cause: self.cause@ }
    }
}

/// The texts of an outcome.
pub open spec fn outcome_of(r: Result<String, DetectError>) -> Result<Text, DetectErrorView> {
    match r {
        Ok(mode) => Ok(mode@),
        Err(e) => Err(e@),
    }
}

/// How far detection has come.
#[derive(Debug, PartialEq, Eq)]
pub enum Stage {
    /// systemd-resolved is being pinged.
    Ping,
    /// `resolv.conf` is being read; it is known whether systemd-resolved is up.
    ResolvConf { resolved_up: bool },
    /// `nsswitch.conf` is being read, as `resolv.conf` belongs to systemd-resolved.
    Nsswitch { content: Vec<u8> },
    /// NetworkManager is being asked, as `resolv.conf` belongs to it.
    NetworkManager,
    /// `resolvconf` is being looked for, as `resolv.conf` belongs to it, or to
    /// NetworkManager.
    Style { by_nm: bool },
    /// Detection is over.
    Done(Result<String, DetectError>),
}

/// The values of a `Stage`.
pub enum StageView {
    Ping,
    ResolvConf { resolved_up: bool },
    Nsswitch { content: Seq<u8> },
    NetworkManager,
    Style { by_nm: bool },
    Done(Result<Text, DetectErrorView>),
}

impl View for Stage {
    type V = StageView;

    open spec fn view(&self) -> StageView {
        match *self {
            Stage::Ping => StageView::Ping,
            Stage::ResolvConf { resolved_up } => StageView::ResolvConf { resolved_up },
            Stage::Nsswitch { content } => StageView::Nsswitch { content: content@ },
            Stage::NetworkManager => StageView::NetworkManager,
            Stage::Style { by_nm } => StageView::Style { by_nm },
            Stage::Done(outcome) => StageView::Done(outcome_of(outcome)),
        }
    }
}

/// A remark on what was found.
#[derive(Debug, PartialEq, Eq)]
pub struct Remark {
    pub key: String,
    pub value: String,
}

/// The texts of a `Remark`.
pub struct RemarkView {
    pub key: Text,
    pub value: Text,
}

impl View for Remark {
    type V = RemarkView;

    open spec fn view(&self) -> RemarkView {
        RemarkView { key: self.key@, value: self.value@ }
    }
}

/// The texts of a list of remarks.
pub open spec fn remarks(v: Seq<Remark>) -> Seq<RemarkView> {
    v.map_values(|r: Remark| r@)
}

/// Detection of the DNS management mode, as far as it has come.
#[derive(Debug)]
pub struct Detection {
    pub stage: Stage,
    /// What was found on the way.
    pub trail: Vec<Remark>,
    /// Why systemd-resolved, though it owns `resolv.conf`, is not in use.
    pub refused: Option<ResolverError>,
}

/// The values of a `Detection`.
pub struct DetectionView {
    pub stage: StageView,
    pub trail: Seq<RemarkView>,
    pub refused: Option<Refusal>,
}

impl View for Detection {
    type V = DetectionView;

    open spec fn view(&self) -> DetectionView {
        DetectionView {
            stage: self.stage@,
            trail: remarks(self.trail@),
            refused: match self.refused {
                Some(e) => Some(e@),
                None => None,
            },
        }
    }
}

impl DetectionView {
    /// With one more remark.
    pub open spec fn noted(self, key: Text, value: Text) -> DetectionView {
        DetectionView { trail: self.trail.push(RemarkView { key, value }), ..self }
    }

    /// At another stage.
    pub open spec fn at(self, stage: StageView) -> DetectionView {
        DetectionView { stage, ..self }
    }

    /// Over, with the given mode.
    pub open spec fn found(self, mode: Text) -> DetectionView {
        self.at(StageView::Done(Ok(mode)))
    }
}

/// Detection before anything is known.
pub open spec fn start() -> DetectionView {
    DetectionView { stage: StageView::Ping, trail: Seq::empty(), refused: None }
}

/// What detection has to know next, or nothing once it is over.
pub open spec fn pending(stage: StageView) -> Option<QuestionView> {
    match stage {
        StageView::Ping => Some(
            QuestionView::Ping { name: RESOLVED_NAME@, object_path: RESOLVED_PATH@ },
        ),
        StageView::ResolvConf { .. } => Some(QuestionView::ReadFile { path: RESOLV_CONF@ }),
        StageView::Nsswitch { .. } => Some(QuestionView::ReadFile { path: NSSWITCH_CONF@ }),
        StageView::NetworkManager => Some(QuestionView::NmIsUsingResolved),
        StageView::Style { .. } => Some(QuestionView::ResolvconfStyle),
        StageView::Done(_) => None,
    }
}

/// Detection once it is known whether systemd-resolved is up.
pub open spec fn after_ping(d: DetectionView, up: bool) -> DetectionView {
    let next = d.at(StageView::ResolvConf { resolved_up: up });
    if up {
        next.noted("resolved-ping"@, "yes"@)
    } else {
        next
    }
}

/// Detection once `resolv.conf` could not be read.
pub open spec fn after_unreadable(d: DetectionView, message: Text) -> DetectionView {
    if text::contains(message, "NotFound"@) {
        d.noted("rc"@, "missing"@).found("direct"@)
    } else {
        d.at(
            StageView::Done(
                Err(DetectErrorView { context: "reading /etc/resolv.conf"@, cause: message }),
            ),
        )
    }
}

/// Detection once `resolv.conf` was read.
pub open spec fn after_conf(d: DetectionView, resolved_up: bool, content: Seq<u8>) -> DetectionView {
    let who = owner::owner(content);
    if who == "systemd-resolved"@ {
        d.noted("rc"@, "resolved"@).at(StageView::Nsswitch { content })
    } else if who == "resolvconf"@ {
        d.at(StageView::Style { by_nm: false })
    } else if who == "NetworkManager"@ {
        let next = d.noted("rc"@, "nm"@);
        if resolved_up {
            next.at(StageView::NetworkManager)
        } else {
            next.at(StageView::Style { by_nm: true })
        }
    } else {
        d.found("direct"@)
    }
}

/// Detection once it is known whether systemd-resolved is in use.
pub open spec fn after_verdict(
    d: DetectionView,
    verdict: Result<Evidence, Refusal>,
) -> DetectionView {
    match verdict {
        Ok(Evidence::Nss) => d.noted("resolved"@, "nss"@).found("systemd-resolved"@),
        Ok(Evidence::File) => d.noted("resolved"@, "file"@).found("systemd-resolved"@),
        Err(refusal) => (DetectionView { refused: Some(refusal), ..d }).noted(
            "resolved"@,
            "not-in-use"@,
        ).found("direct"@),
    }
}

/// Detection once NetworkManager has answered.
pub open spec fn after_nm(d: DetectionView, using_resolved: bool) -> DetectionView {
    if using_resolved {
        d.noted("nm"@, "resolved"@).found("systemd-resolved"@)
    } else {
        d.at(StageView::Style { by_nm: true })
    }
}

/// The mode for an implementation of `resolvconf` that owns `resolv.conf`.
pub open spec fn style_mode(style: Text) -> Text {
    if style == "openresolv"@ {
        "openresolv"@
    } else if style == "debian"@ {
        "debian-resolvconf"@
    } else {
        "direct"@
    }
}

/// The mode for an implementation of `resolvconf` beside NetworkManager.
pub open spec fn nm_style_mode(style: Text) -> Text {
    if style.len() == 0 {
        "direct"@
    } else if style == "openresolv"@ {
        "openresolv"@
    } else {
        "debian-resolvconf"@
    }
}

/// Detection once the implementation of `resolvconf` is known.
pub open spec fn after_style(d: DetectionView, by_nm: bool, style: Text) -> DetectionView {
    if by_nm {
        d.noted(
            "nm"@,
            if style.len() > 0 {
                "resolvconf-"@ + style
            } else {
                "direct"@
            },
        ).found(nm_style_mode(style))
    } else {
        d.noted("rc"@, "resolvconf"@).noted("resolvconf-style"@, style).found(style_mode(style))
    }
}

/// The bytes of a file, if it could be read.
pub open spec fn readable(file: Result<Seq<u8>, Text>) -> Option<Seq<u8>> {
    match file {
        Ok(content) => Some(content),
        Err(_) => None,
    }
}

/// Detection after an answer. One that does not belong to the pending question
/// changes nothing.
pub open spec fn after(d: DetectionView, answer: AnswerView) -> DetectionView {
    match (d.stage, answer) {
        (StageView::Ping, AnswerView::Ping(up)) => after_ping(d, up),
        (StageView::ResolvConf { .. }, AnswerView::File(Err(message))) => after_unreadable(
            d,
            message,
        ),
        (StageView::ResolvConf { resolved_up }, AnswerView::File(Ok(content))) => after_conf(
            d,
            resolved_up,
            content,
        ),
        (StageView::Nsswitch { content }, AnswerView::File(file)) => after_verdict(
            d,
            resolver::resolver_verdict(
                resolver::nss_in_use(readable(file)),
                resolver::parsed_nameservers(content),
            ),
        ),
        (StageView::NetworkManager, AnswerView::NmIsUsingResolved(yes)) => after_nm(d, yes),
        (StageView::Style { by_nm }, AnswerView::ResolvconfStyle(style)) => after_style(
            d,
            by_nm,
            style,
        ),
        _ => d,
    }
}

impl Detection {
    /// With one more remark.
    fn noted(self, key: &str, value: &str) -> (r: Self)
        ensures
            r@ == self@.noted(key@, value@),
    {
        let ghost before = self@;
        let mut r = self;
        r.trail.push(Remark { key: key.to_string(), value: value.to_string() });
        assert(remarks(r.trail@) == before.trail.push(RemarkView { key: key@, value: value@ }));
        r
    }

    /// At another stage.
    fn at(self, stage: Stage) -> (r: Self)
        ensures
            r@ == self@.at(stage@),
    {
        Detection { stage, trail: self.trail, refused: self.refused }
    }

    /// Over, with the given mode.
    fn found(self, mode: &str) -> (r: Self)
        ensures
            r@ == self@.found(mode@),
    {
        self.at(Stage::Done(Ok(mode.to_string())))
    }

    /// What detection has to know next, or nothing once it is over.
    pub fn question(&self) -> (r: Option<Question>)
        ensures
            r is Some <==> pending(self@.stage) is Some,
            r matches Some(q) ==> pending(self@.stage) == Some(q@),
    {
        match self.stage {
            Stage::Ping => Some(
                Question::Ping {
                    name: RESOLVED_NAME.to_string(),
                    object_path: RESOLVED_PATH.to_string(),
                },
            ),
            Stage::ResolvConf { .. } => Some(Question::ReadFile { path: RESOLV_CONF.to_string() }),
            Stage::Nsswitch { .. } => Some(Question::ReadFile { path: NSSWITCH_CONF.to_string() }),
            Stage::NetworkManager => Some(Question::NmIsUsingResolved),
            Stage::Style { .. } => Some(Question::ResolvconfStyle),
            Stage::Done(_) => None,
        }
    }

    /// Takes an answer to the pending question into account. An answer that does not
    /// belong to it changes nothing.
    pub fn step(self, answer: Answer) -> (r: Self)
        ensures
            r@ == after(self@, answer@),
    {
        let Detection { stage, trail, refused } = self;
        match (stage, answer) {
            (Stage::Ping, Answer::Ping(up)) => {
                let d = Detection { stage: Stage::ResolvConf { resolved_up: up }, trail, refused };
                if up {
                    d.noted("resolved-ping", "yes")
                } else {
                    d
                }
            },
            (Stage::ResolvConf { resolved_up }, Answer::File(Err(message))) => {
                let d = Detection { stage: Stage::ResolvConf { resolved_up }, trail, refused };
                d.step_unreadable(message)
            },
            (Stage::ResolvConf { resolved_up }, Answer::File(Ok(content))) => {
                let d = Detection { stage: Stage::ResolvConf { resolved_up }, trail, refused };
                d.step_conf(resolved_up, content)
            },
            (Stage::Nsswitch { content }, Answer::File(file)) => {
                let verdict = match &file {
                    Ok(bytes) => resolver::resolved_is_actually_resolver(
                        Some(bytes.as_slice()),
                        content.as_slice(),
                    ),
                    Err(_) => resolver::resolved_is_actually_resolver(None, content.as_slice()),
                };
                let d = Detection { stage: Stage::Nsswitch { content }, trail, refused };
                d.step_verdict(verdict)
            },
            (Stage::NetworkManager, Answer::NmIsUsingResolved(yes)) => {
                let d = Detection { stage: Stage::NetworkManager, trail, refused };
                if yes {
                    d.noted("nm", "resolved").found("systemd-resolved")
                } else {
                    d.at(Stage::Style { by_nm: true })
                }
            },
            (Stage::Style { by_nm }, Answer::ResolvconfStyle(style)) => {
                let d = Detection { stage: Stage::Style { by_nm }, trail, refused };
                d.step_style(by_nm, style)
            },
            (stage, _) => Detection { stage, trail, refused },
        }
    }

    fn step_unreadable(self, message: String) -> (r: Self)
        ensures
            r@ == after_unreadable(self@, message@),
    {
        if text::has_part(
            text::chars_of(message.as_str()).as_slice(),
            text::chars_of("NotFound").as_slice(),
        ) {
            self.noted("rc", "missing").found("direct")
        } else {
            self.at(
                Stage::Done(
                    Err(
                        DetectError {
                            context: "reading /etc/resolv.conf".to_string(),
                            cause: message,
                        },
                    ),
                ),
            )
        }
    }

    fn step_conf(self, resolved_up: bool, content: Vec<u8>) -> (r: Self)
        ensures
            r@ == after_conf(self@, resolved_up, content@),
    {
        let who = owner::resolv_owner(content.as_slice());
        if text::same_text(who.as_str(), "systemd-resolved") {
            self.noted("rc", "resolved").at(Stage::Nsswitch { content })
        } else if text::same_text(who.as_str(), "resolvconf") {
            self.at(Stage::Style { by_nm: false })
        } else if text::same_text(who.as_str(), "NetworkManager") {
            let d = self.noted("rc", "nm");
            if resolved_up {
                d.at(Stage::NetworkManager)
            } else {
                d.at(Stage::Style { by_nm: true })
            }
        } else {
            self.found("direct")
        }
    }

    fn step_verdict(self, verdict: Result<Evidence, ResolverError>) -> (r: Self)
        ensures
            r@ == after_verdict(self@, resolver::verdict_of(verdict)),
    {
        match verdict {
            Ok(Evidence::Nss) => self.noted("resolved", "nss").found("systemd-resolved"),
            Ok(Evidence::File) => self.noted("resolved", "file").found("systemd-resolved"),
            Err(e) => {
                let d = Detection { stage: self.stage, trail: self.trail, refused: Some(e) };
                d.noted("resolved", "not-in-use").found("direct")
            },
        }
    }

    fn step_style(self, by_nm: bool, style: String) -> (r: Self)
        ensures
            r@ == after_style(self@, by_nm, style@),
    {
        if by_nm {
            if style.as_str().is_empty() {
                self.noted("nm", "direct").found("direct")
            } else {
                let mut value = "resolvconf-".to_string();
                value.append(style.as_str());
                let d = self.noted("nm", value.as_str());
                if text::same_text(style.as_str(), "openresolv") {
                    d.found("openresolv")
                } else {
                    d.found("debian-resolvconf")
                }
            }
        } else {
            let d = self.noted("rc", "resolvconf").noted("resolvconf-style", style.as_str());
            if text::same_text(style.as_str(), "openresolv") {
                d.found("openresolv")
            } else if text::same_text(style.as_str(), "debian") {
                d.found("debian-resolvconf")
            } else {
                d.found("direct")
            }
        }
    }
}

/// How a remark is shown.
pub open spec fn shown_remark(r: RemarkView) -> Text {
    r.key + "="@ + r.value
}

/// How the remarks made on the way are shown.
pub open spec fn shown_trail(trail: Seq<RemarkView>) -> Text {
    "dns: ["@ + text::join(trail.map_values(|r: RemarkView| shown_remark(r)), " "@) + "]"@
}

impl Detection {
    /// The remarks made on the way as one line, or nothing if there are none.
    pub fn trail_line(&self) -> (r: Option<String>)
        ensures
            r is Some <==> self@.trail.len() > 0,
            r matches Some(line) ==> line@ == shown_trail(self@.trail),
    {
        if self.trail.len() == 0 {
            return None;
        }
        let ghost all = self@.trail.map_values(|r: RemarkView| shown_remark(r));
        let mut entries: Vec<String> = Vec::new();
        for i in 0..self.trail.len()
            invariant
                all == self@.trail.map_values(|r: RemarkView| shown_remark(r)),
                text::texts(entries@) == all.take(i as int),
        {
            let mut entry = self.trail[i].key.clone();
            entry.append("=");
            entry.append(self.trail[i].value.as_str());
            let ghost before = text::texts(entries@);
            entries.push(entry);
            assert(self@.trail[i as int] == self.trail@[i as int]@);
            assert(text::texts(entries@) == before.push(all[i as int]));
            assert(all.take(i + 1) == all.take(i as int).push(all[i as int]));
        }
        assert(all.take(all.len() as int) == all);
        let mut line = "dns: [".to_string();
        line.append(text::joined(&entries, " ").as_str());
        line.append("]");
        Some(line)
    }
}

/// Starts to detect the DNS management mode on this system.
pub fn dns_mode() -> (r: Detection)
    ensures
        r@ == start(),
{
    let r = Detection { stage: Stage::Ping, trail: Vec::new(), refused: None };
    assert(remarks(r.trail@) == Seq::<RemarkView>::empty());
    r
}

/// A system, as far as detection asks about it.
pub struct Host {
    /// Whether systemd-resolved answers on D-Bus.
    pub resolved_up: bool,
    /// What `/etc/resolv.conf` holds, or the message of the error reading it gives.
    pub resolv_conf: Result<Seq<u8>, Text>,
    /// What `/etc/nsswitch.conf` holds, or the message of the error reading it gives.
    pub nsswitch_conf: Result<Seq<u8>, Text>,
    /// Whether NetworkManager leaves DNS to systemd-resolved.
    pub nm_is_using_resolved: bool,
    /// The name of the implementation of `resolvconf`.
    pub resolvconf_style: Text,
}

impl Host {
    /// The answer that the system gives.
    pub open spec fn answer(self, question: QuestionView) -> AnswerView {
        match question {
            QuestionView::Ping { .. } => AnswerView::Ping(self.resolved_up),
            QuestionView::ReadFile { path } => if path == RESOLV_CONF@ {
                AnswerView::File(self.resolv_conf)
            } else {
                AnswerView::File(self.nsswitch_conf)
            },
            QuestionView::NmIsUsingResolved => AnswerView::NmIsUsingResolved(
                self.nm_is_using_resolved,
            ),
            QuestionView::ResolvconfStyle => AnswerView::ResolvconfStyle(self.resolvconf_style),
        }
    }

    /// Whether systemd-resolved is the resolver in use.
    pub open spec fn uses_resolved(self, content: Seq<u8>) -> bool {
        resolver::resolver_verdict(
            resolver::nss_in_use(readable(self.nsswitch_conf)),
            resolver::parsed_nameservers(content),
        ) is Ok
    }

    /// The mode of a system whose `resolv.conf` holds `content`.
    pub open spec fn mode_for(self, content: Seq<u8>) -> Text {
        let who = owner::owner(content);
        if who == "systemd-resolved"@ {
            if self.uses_resolved(content) {
                "systemd-resolved"@
            } else {
                "direct"@
            }
        } else if who == "resolvconf"@ {
            style_mode(self.resolvconf_style)
        } else if who == "NetworkManager"@ {
            if self.resolved_up && self.nm_is_using_resolved {
                "systemd-resolved"@
            } else {
                nm_style_mode(self.resolvconf_style)
            }
        } else {
            "direct"@
        }
    }

    /// The outcome of detection.
    pub open spec fn mode(self) -> Result<Text, DetectErrorView> {
        match self.resolv_conf {
            Ok(content) => Ok(self.mode_for(content)),
            Err(message) => if text::contains(message, "NotFound"@) {
                Ok("direct"@)
            } else {
                Err(DetectErrorView { context: "reading /etc/resolv.conf"@, cause: message })
            },
        }
    }

    /// Detection after the system has answered what was pending.
    pub open spec fn reply(self, d: DetectionView) -> DetectionView {
        match pending(d.stage) {
            Some(question) => after(d, self.answer(question)),
            None => d,
        }
    }

    /// Detection after the system has answered `n` questions.
    pub open spec fn detection(self, n: nat) -> DetectionView
        decreases n,
    {
        if n == 0 {
            start()
        } else {
            self.reply(self.detection((n - 1) as nat))
        }
    }
}

/// The modes that detection can find.
pub open spec fn is_mode(mode: Text) -> bool {
    ||| mode == "systemd-resolved"@
    ||| mode == "debian-resolvconf"@
    ||| mode == "openresolv"@
    ||| mode == "direct"@
}

/// The two files that are read are different.
proof fn lemma_paths()
    ensures
        RESOLV_CONF@ != NSSWITCH_CONF@,
{
    reveal_strlit("/etc/resolv.conf");
    reveal_strlit("/etc/nsswitch.conf");
    assert("/etc/resolv.conf"@.len() != "/etc/nsswitch.conf"@.len());
}

/// On every system, detection is over once four questions at most are answered, and
/// its outcome is the mode of the system.
pub proof fn detection_finds_the_mode(host: Host, n: nat)
    requires
        n >= 4,
    ensures
        host.detection(n).stage == StageView::Done(host.mode()),
    decreases n,
{
    if n > 4 {
        detection_finds_the_mode(host, (n - 1) as nat);
    } else {
        lemma_paths();
        reveal_with_fuel(Host::detection, 5);
    }
}

/// The mode of a system is one of "systemd-resolved", "debian-resolvconf",
/// "openresolv" and "direct", unless `resolv.conf` is there and cannot be read.
pub proof fn modes_are_known(host: Host)
    ensures
        host.mode() matches Ok(mode) ==> is_mode(mode),
        host.mode() is Err <==> (host.resolv_conf matches Err(message) && !text::contains(
            message,
            "NotFound"@,
        )),
{
}

/// NetworkManager is asked only where systemd-resolved is up and NetworkManager owns
/// `resolv.conf`.
pub proof fn network_manager_is_asked_only_if_needed(host: Host, n: nat)
    ensures
        host.detection(n).stage is NetworkManager ==> host.resolved_up && (
        host.resolv_conf matches Ok(content) && owner::owner(content) == "NetworkManager"@),
{
    lemma_paths();
    reveal_with_fuel(Host::detection, 5);
    if n > 4 {
        detection_finds_the_mode(host, n);
    } else if n == 0 {
    } else if n == 1 {
    } else if n == 2 {
    } else if n == 3 {
    } else {
    }
}

} // verus!
