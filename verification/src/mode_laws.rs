use crate::encoding;
use crate::mode;
use crate::mode::{
    AnswerView, DetectErrorView, DetectionView, Host, QuestionView, RemarkView, StageView,
};
use crate::nsswitch;
use crate::owner;
use crate::resolver;
use crate::resolver::{NameserverView, Refusal};
use crate::text;
use crate::text::Text;
use crate::text_laws;
use vstd::prelude::*;

verus! {

/// The names of owners, styles and modes are different.
proof fn lemma_names_differ()
    ensures
        "systemd-resolved"@.len() == 16,
        "NetworkManager"@.len() == 14,
        "resolvconf"@.len() == 10,
        "openresolv"@.len() == 10,
        "debian"@.len() == 6,
{
    reveal_strlit("systemd-resolved");
    reveal_strlit("NetworkManager");
    reveal_strlit("resolvconf");
    reveal_strlit("openresolv");
    reveal_strlit("debian");
}

/// Detection starts with nothing found, and each stage asks one question: for the service of
/// systemd-resolved, for one of two files, for NetworkManager, or for `resolvconf`.
pub proof fn each_stage_asks_one_question(up: bool, content: Seq<u8>, by_nm: bool)
    ensures
        mode::start().stage is Ping,
        mode::start().trail.len() == 0,
        mode::start().refused is None,
        mode::pending(StageView::Ping) == Some(
            QuestionView::Ping {
                name: "org.freedesktop.resolve1"@,
                object_path: "/org/freedesktop/resolve1"@,
            },
        ),
        mode::pending(StageView::ResolvConf { resolved_up: up }) == Some(
            QuestionView::ReadFile { path: "/etc/resolv.conf"@ },
        ),
        mode::pending(StageView::Nsswitch { content }) == Some(
            QuestionView::ReadFile { path: "/etc/nsswitch.conf"@ },
        ),
        mode::pending(StageView::NetworkManager) == Some(QuestionView::NmIsUsingResolved),
        mode::pending(StageView::Style { by_nm }) == Some(QuestionView::ResolvconfStyle),
{
}

/// Nothing is asked once there is an outcome, and no answer changes it.
pub proof fn an_outcome_is_final(
    d: DetectionView,
    outcome: Result<Text, DetectErrorView>,
    answer: AnswerView,
)
    requires
        d.stage == StageView::Done(outcome),
    ensures
        mode::pending(d.stage) is None,
        mode::after(d, answer) == d,
{
}

/// An answer to another question than the pending one changes nothing.
pub proof fn other_answers_change_nothing(d: DetectionView, answer: AnswerView)
    requires
        d.stage is Ping ==> !(answer is Ping),
        d.stage is ResolvConf || d.stage is Nsswitch ==> !(answer is File),
        d.stage is NetworkManager ==> !(answer is NmIsUsingResolved),
        d.stage is Style ==> !(answer is ResolvconfStyle),
    ensures
        mode::after(d, answer) == d,
{
}

/// Detection only ever adds to what it has found.
pub proof fn remarks_are_kept(d: DetectionView, answer: AnswerView)
    ensures
        d.trail.is_prefix_of(mode::after(d, answer).trail),
{
    let now = mode::after(d, answer);
    assert(d.trail == now.trail.subrange(0, d.trail.len() as int));
}

/// Whether systemd-resolved answered is remembered, and remarked if it did; `resolv.conf` is
/// read next either way.
pub proof fn the_ping_is_remembered(d: DetectionView, up: bool)
    requires
        d.stage is Ping,
    ensures
        ({
            let now = mode::after(d, AnswerView::Ping(up));
            &&& now.stage == StageView::ResolvConf { resolved_up: up }
            &&& now.refused == d.refused
            &&& up ==> now.trail == d.trail.push(
                RemarkView { key: "resolved-ping"@, value: "yes"@ },
            )
            &&& !up ==> now.trail == d.trail
        }),
{
}

/// A `resolv.conf` that cannot be read means direct mode where the message holds "NotFound",
/// and is an error with that message as its cause where it does not.
pub proof fn a_file_that_cannot_be_read(d: DetectionView, message: Text)
    requires
        d.stage is ResolvConf,
    ensures
        ({
            let now = mode::after(d, AnswerView::File(Err(message)));
            &&& now.refused == d.refused
            &&& text::contains(message, "NotFound"@) ==> now.stage == StageView::Done(
                Ok("direct"@),
            ) && now.trail == d.trail.push(RemarkView { key: "rc"@, value: "missing"@ })
            &&& !text::contains(message, "NotFound"@) ==> now.stage == StageView::Done(
                Err(DetectErrorView { context: "reading /etc/resolv.conf"@, cause: message }),
            ) && now.trail == d.trail
        }),
{
}

/// What is asked after `resolv.conf` was read depends on its owner: `nsswitch.conf` for
/// systemd-resolved, `resolvconf` for resolvconf, NetworkManager for itself if
/// systemd-resolved is up and else `resolvconf`, and for no known owner nothing.
pub proof fn the_owner_tells_what_is_asked(d: DetectionView, up: bool, content: Seq<u8>)
    requires
        d.stage == (StageView::ResolvConf { resolved_up: up }),
    ensures
        ({
            let now = mode::after(d, AnswerView::File(Ok(content)));
            let who = owner::owner(content);
            &&& now.refused == d.refused
            &&& who == "systemd-resolved"@ ==> now.stage == (StageView::Nsswitch { content })
                && now.trail == d.trail.push(RemarkView { key: "rc"@, value: "resolved"@ })
            &&& who == "resolvconf"@ ==> mode::pending(now.stage) == Some(
                QuestionView::ResolvconfStyle,
            ) && now.stage == (StageView::Style { by_nm: false }) && now.trail == d.trail
            &&& who == "NetworkManager"@ ==> now.trail == d.trail.push(
                RemarkView { key: "rc"@, value: "nm"@ },
            )
            &&& who == "NetworkManager"@ && up ==> mode::pending(now.stage) == Some(
                QuestionView::NmIsUsingResolved,
            )
            &&& who == "NetworkManager"@ && !up ==> mode::pending(now.stage) == Some(
                QuestionView::ResolvconfStyle,
            ) && now.stage == (StageView::Style { by_nm: true })
            &&& who != "systemd-resolved"@ && who != "resolvconf"@ && who != "NetworkManager"@
                ==> now.stage == StageView::Done(Ok("direct"@)) && now.trail == d.trail
        }),
{
    lemma_names_differ();
}

/// Where systemd-resolved owns `resolv.conf`, an `nsswitch.conf` that puts `resolve` before
/// `dns` settles that it is in use, whatever `resolv.conf` holds.
pub proof fn nss_settles_that_resolved_is_in_use(
    d: DetectionView,
    content: Seq<u8>,
    nsswitch: Seq<u8>,
)
    requires
        d.stage == (StageView::Nsswitch { content }),
        nsswitch::nss_verdict(encoding::utf8_lossy(nsswitch)) is Ok,
    ensures
        ({
            let now = mode::after(d, AnswerView::File(Ok(nsswitch)));
            &&& now.stage == StageView::Done(Ok("systemd-resolved"@))
            &&& now.refused == d.refused
            &&& now.trail == d.trail.push(RemarkView { key: "resolved"@, value: "nss"@ })
        }),
{
}

/// Where systemd-resolved owns `resolv.conf` and `nsswitch.conf` cannot be read, or does not
/// put `resolve` before `dns`, the mode is that of systemd-resolved if and only if
/// `resolv.conf` names 127.0.0.53 and nothing else. Else it is direct, and the reason is kept.
pub proof fn the_nameservers_settle_whether_resolved_is_in_use(
    d: DetectionView,
    content: Seq<u8>,
    nsswitch: Result<Seq<u8>, Text>,
)
    requires
        d.stage == (StageView::Nsswitch { content }),
        nsswitch matches Ok(bytes) ==> nsswitch::nss_verdict(encoding::utf8_lossy(bytes)) is Err,
    ensures
        ({
            let now = mode::after(d, AnswerView::File(nsswitch));
            let parsed = resolver::parsed_nameservers(content);
            let stub_only = parsed matches Ok(nameservers) && nameservers.len() > 0 && (
            forall|i: int|
                0 <= i < nameservers.len() ==> #[trigger] nameservers[i] == NameserverView::V4(
                    127,
                    0,
                    0,
                    53,
                ));
            &&& stub_only ==> now.stage == StageView::Done(Ok("systemd-resolved"@)) && now.refused
                == d.refused && now.trail == d.trail.push(
                RemarkView { key: "resolved"@, value: "file"@ },
            )
            &&& !stub_only ==> now.stage == StageView::Done(Ok("direct"@)) && now.trail
                == d.trail.push(RemarkView { key: "resolved"@, value: "not-in-use"@ })
            &&& !stub_only ==> now.refused == Some(
                match parsed {
                    Err(message) => Refusal::Unparsable(message),
                    Ok(nameservers) => if nameservers.len() == 0 {
                        Refusal::NoNameservers
                    } else {
                        Refusal::OtherNameserver
                    },
                },
            )
        }),
{
}

/// Where NetworkManager leaves DNS to systemd-resolved, that is the mode; where it does not,
/// `resolvconf` is asked for.
pub proof fn network_manager_is_believed(d: DetectionView, yes: bool)
    requires
        d.stage is NetworkManager,
    ensures
        ({
            let now = mode::after(d, AnswerView::NmIsUsingResolved(yes));
            &&& now.refused == d.refused
            &&& yes ==> now.stage == StageView::Done(Ok("systemd-resolved"@)) && now.trail
                == d.trail.push(RemarkView { key: "nm"@, value: "resolved"@ })
            &&& !yes ==> now.stage == (StageView::Style { by_nm: true }) && now.trail == d.trail
        }),
{
}

/// Where resolvconf owns `resolv.conf`, its two known implementations have their modes, and
/// any other text means direct.
pub proof fn the_style_settles_the_mode(d: DetectionView, style: Text)
    requires
        d.stage == (StageView::Style { by_nm: false }),
    ensures
        ({
            let now = mode::after(d, AnswerView::ResolvconfStyle(style));
            &&& now.refused == d.refused
            &&& now.trail == d.trail.push(
                RemarkView { key: "rc"@, value: "resolvconf"@ },
            ).push(RemarkView { key: "resolvconf-style"@, value: style })
            &&& style == "openresolv"@ ==> now.stage == StageView::Done(Ok("openresolv"@))
            &&& style == "debian"@ ==> now.stage == StageView::Done(Ok("debian-resolvconf"@))
            &&& style != "openresolv"@ && style != "debian"@ ==> now.stage == StageView::Done(
                Ok("direct"@),
            )
        }),
{
    lemma_names_differ();
}

/// Where NetworkManager owns `resolv.conf`, OpenResolv has its mode, any other implementation
/// is taken to be Debian's, and only where there is none the mode is direct.
pub proof fn the_style_settles_the_mode_beside_network_manager(d: DetectionView, style: Text)
    requires
        d.stage == (StageView::Style { by_nm: true }),
    ensures
        ({
            let now = mode::after(d, AnswerView::ResolvconfStyle(style));
            &&& now.refused == d.refused
            &&& style == "openresolv"@ ==> now.stage == StageView::Done(Ok("openresolv"@))
            &&& style.len() > 0 && style != "openresolv"@ ==> now.stage == StageView::Done(
                Ok("debian-resolvconf"@),
            )
            &&& style.len() > 0 ==> now.trail == d.trail.push(
                RemarkView { key: "nm"@, value: "resolvconf-"@ + style },
            )
            &&& style.len() == 0 ==> now.stage == StageView::Done(Ok("direct"@)) && now.trail
                == d.trail.push(RemarkView { key: "nm"@, value: "direct"@ })
        }),
{
    lemma_names_differ();
}

/// From the first question to the outcome where NetworkManager owns `resolv.conf` and
/// systemd-resolved is not up: NetworkManager is not asked, `resolvconf` is, and its
/// implementation settles the mode.
pub proof fn network_manager_without_resolved(content: Seq<u8>, style: Text)
    requires
        owner::owner(content) == "NetworkManager"@,
    ensures
        ({
            let pinged = mode::after(mode::start(), AnswerView::Ping(false));
            let read = mode::after(pinged, AnswerView::File(Ok(content)));
            let over = mode::after(read, AnswerView::ResolvconfStyle(style));
            &&& mode::pending(read.stage) == Some(QuestionView::ResolvconfStyle)
            &&& over.stage == StageView::Done(
                Ok(
                    if style.len() == 0 {
                        "direct"@
                    } else if style == "openresolv"@ {
                        "openresolv"@
                    } else {
                        "debian-resolvconf"@
                    },
                ),
            )
        }),
{
    lemma_names_differ();
}

/// The mode of a system whose `resolv.conf` NetworkManager owns: that of systemd-resolved
/// where it is up and NetworkManager leaves DNS to it. Else, whether or not it is up, the
/// mode of OpenResolv if that is installed, that of Debian's resolvconf if another one is,
/// and direct only if there is none.
pub proof fn systems_of_network_manager(host: Host, content: Seq<u8>, n: nat)
    requires
        host.resolv_conf == Ok::<Seq<u8>, Text>(content),
        owner::owner(content) == "NetworkManager"@,
        n >= 4,
    ensures
        host.resolved_up && host.nm_is_using_resolved ==> host.detection(n).stage
            == StageView::Done(Ok("systemd-resolved"@)),
        !(host.resolved_up && host.nm_is_using_resolved) && host.resolvconf_style == "openresolv"@
            ==> host.detection(n).stage == StageView::Done(Ok("openresolv"@)),
        !(host.resolved_up && host.nm_is_using_resolved) && host.resolvconf_style.len() > 0
            && host.resolvconf_style != "openresolv"@ ==> host.detection(n).stage
            == StageView::Done(Ok("debian-resolvconf"@)),
        !(host.resolved_up && host.nm_is_using_resolved) && host.resolvconf_style.len() == 0
            ==> host.detection(n).stage == StageView::Done(Ok("direct"@)),
{
    lemma_names_differ();
    mode::detection_finds_the_mode(host, n);
}

/// The mode of a system whose `resolv.conf` resolvconf owns depends on its implementation
/// alone.
pub proof fn systems_of_resolvconf(host: Host, content: Seq<u8>, n: nat)
    requires
        host.resolv_conf == Ok::<Seq<u8>, Text>(content),
        owner::owner(content) == "resolvconf"@,
        n >= 4,
    ensures
        host.resolvconf_style == "openresolv"@ ==> host.detection(n).stage == StageView::Done(
            Ok("openresolv"@),
        ),
        host.resolvconf_style == "debian"@ ==> host.detection(n).stage == StageView::Done(
            Ok("debian-resolvconf"@),
        ),
        host.resolvconf_style != "openresolv"@ && host.resolvconf_style != "debian"@
            ==> host.detection(n).stage == StageView::Done(Ok("direct"@)),
{
    lemma_names_differ();
    mode::detection_finds_the_mode(host, n);
}

/// The mode of a system whose `resolv.conf` systemd-resolved owns is its own if
/// `nsswitch.conf` puts `resolve` before `dns` or `resolv.conf` names 127.0.0.53 and nothing
/// else, and direct otherwise. Nothing else about the system matters.
pub proof fn systems_of_resolved(host: Host, content: Seq<u8>, n: nat)
    requires
        host.resolv_conf == Ok::<Seq<u8>, Text>(content),
        owner::owner(content) == "systemd-resolved"@,
        n >= 4,
    ensures
        ({
            let by_nss = host.nsswitch_conf matches Ok(bytes) && nsswitch::nss_verdict(
                encoding::utf8_lossy(bytes),
            ) is Ok;
            let by_file = resolver::parsed_nameservers(content) matches Ok(nameservers)
                && nameservers.len() > 0 && (forall|i: int|
                0 <= i < nameservers.len() ==> #[trigger] nameservers[i] == NameserverView::V4(
                    127,
                    0,
                    0,
                    53,
                ));
            &&& by_nss || by_file ==> host.detection(n).stage == StageView::Done(
                Ok("systemd-resolved"@),
            )
            &&& !by_nss && !by_file ==> host.detection(n).stage == StageView::Done(Ok("direct"@))
        }),
{
    lemma_names_differ();
    mode::detection_finds_the_mode(host, n);
}

/// The mode of a system whose `resolv.conf` nobody known owns is direct, whatever else is
/// installed.
pub proof fn systems_of_nobody(host: Host, content: Seq<u8>, n: nat)
    requires
        host.resolv_conf == Ok::<Seq<u8>, Text>(content),
        owner::owner(content).len() == 0,
        n >= 4,
    ensures
        host.detection(n).stage == StageView::Done(Ok("direct"@)),
{
    lemma_names_differ();
    mode::detection_finds_the_mode(host, n);
}

/// The remarks are shown in order, with a blank between each two, each as its key and its
/// value with "=" between them: one more stands behind the others.
pub proof fn each_remark_is_shown(trail: Seq<RemarkView>, remark: RemarkView)
    ensures
        mode::shown_trail(seq![remark]) == "dns: ["@ + (remark.key + "="@ + remark.value) + "]"@,
        trail.len() > 0 ==> mode::shown_trail(trail.push(remark)) == mode::shown_trail(
            trail,
        ).drop_last() + " "@ + (remark.key + "="@ + remark.value) + "]"@,
{
    reveal_strlit("]");
    let shown = trail.map_values(|r: RemarkView| mode::shown_remark(r));
    let more = trail.push(remark).map_values(|r: RemarkView| mode::shown_remark(r));
    let one = seq![remark].map_values(|r: RemarkView| mode::shown_remark(r));
    let entry = remark.key + "="@ + remark.value;
    assert(one == seq![entry]);
    assert(more == shown + one);
    text_laws::joined_lists_are_joined(shown, one, " "@);
    text_laws::joined_lists_are_joined(one, shown, " "@);
    if trail.len() > 0 {
        let open = "dns: ["@ + text::join(shown, " "@);
        assert(mode::shown_trail(trail).drop_last() == open);
        assert(mode::shown_trail(trail.push(remark)) == open + " "@ + entry + "]"@);
    }
}

} // verus!
