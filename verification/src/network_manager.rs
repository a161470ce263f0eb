use crate::text;
use crate::text::Text;
use vstd::prelude::*;
use vstd::string::StringExecFns;

verus! {

/// How two versions relate.
#[derive(Clone, Copy, Debug, PartialEq, Eq, Structural)]
pub enum Relation {
    Eq,
    Ne,
    Lt,
    Le,
    Ge,
    Gt,
}

/// How `version_compare::compare` finds two versions to relate, or `None` where
/// one of them is no version.
pub uninterp spec fn version_relation(a: Seq<char>, b: Seq<char>) -> Option<Relation>;

/// Calls `version_compare::compare`.
///
/// The result depends on the two texts alone, and is never `Ne`, `Le` or `Ge`.
/// Which texts are versions, and how they are ordered, is left open.
#[verifier::external_body]
fn relate(a: &str, b: &str) -> (r: Option<Relation>)
    ensures
        r == version_relation(a@, b@),
        r matches Some(relation) ==> relation == Relation::Eq || relation == Relation::Lt
            || relation == Relation::Gt,
{
    match version_compare::compare(a, b) {
        Ok(version_compare::Cmp::Eq) => Some(Relation::Eq),
        Ok(version_compare::Cmp::Ne) => Some(Relation::Ne),
        Ok(version_compare::Cmp::Lt) => Some(Relation::Lt),
        Ok(version_compare::Cmp::Le) => Some(Relation::Le),
        Ok(version_compare::Cmp::Ge) => Some(Relation::Ge),
        Ok(version_compare::Cmp::Gt) => Some(Relation::Gt),
        Err(_) => None,
    }
}

/// Whether a version is taken to lie between two others, given how it was found
/// to relate to the first and to the last of them.
pub open spec fn between(to_first: Option<Relation>, to_last: Option<Relation>) -> bool {
    to_first == Some(Relation::Ge) && to_last == Some(Relation::Le)
}

/// Whether a version is taken to lie between two others, given how it was found
/// to relate to the first and to the last of them. One that could not be compared
/// counts as before the first, or after the last.
pub fn relations_between(to_first: Option<Relation>, to_last: Option<Relation>) -> (r: bool)
    ensures
        r == between(to_first, to_last),
{
    let first = match to_first {
        Some(relation) => relation,
        None => Relation::Lt,
    };
    let last = match to_last {
        Some(relation) => relation,
        None => Relation::Gt,
    };
    first == Relation::Ge && last == Relation::Le
}

/// Whether the version of NetworkManager is taken to lie between two others. As
/// the comparison answers with nothing but `Eq`, `Lt` and `Gt`, it never is.
pub fn nm_version_between(version: &str, first: &str, last: &str) -> (r: bool)
    ensures
        r == between(version_relation(version@, first@), version_relation(version@, last@)),
        !r,
{
    let to_first = relate(version, first);
    let to_last = relate(version, last);
    relations_between(to_first, to_last)
}

/// The mode in which NetworkManager leaves DNS to systemd-resolved.
pub open spec fn resolved_mode() -> Text {
    "systemd-resolved"@
}

/// Check whether NetworkManager is using systemd-resolved as its DNS backend, given
/// its mode, if that is a string, and the form in which to show what it is.
pub fn nm_is_using_resolved(mode: Option<&str>, shown: &str) -> (r: Result<(), String>)
    ensures
        r is Ok <==> (mode matches Some(m) && m@ == resolved_mode()),
        r matches Err(message) ==> message@
            == "NetworkManager is not using systemd-resolved, found: "@ + shown@,
{
    if let Some(m) = mode {
        if text::same_text(m, "systemd-resolved") {
            return Ok(());
        }
    }
    let mut message = "NetworkManager is not using systemd-resolved, found: ".to_string();
    message.append(shown);
    Err(message)
}

/// NetworkManager leaves DNS to systemd-resolved in the mode of that name.
pub proof fn the_mode_is_named_after_resolved()
    ensures
        resolved_mode() == "systemd-resolved"@,
{
}

/// A version lies between two others only if it was found not to be before the first and not
/// to be after the last, each for itself.
pub proof fn both_ends_count(to_first: Option<Relation>, to_last: Option<Relation>)
    ensures
        between(to_first, to_last) <==> to_first == Some(Relation::Ge) && to_last == Some(
            Relation::Le,
        ),
{
}

} // verus!
