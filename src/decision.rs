//! The update decision: the latest stable version against the previous record.
use vstd::prelude::*;
use crate::select::{
    has_stable, is_latest, is_stable_tag, latest_stable, lemma_latest_unique, tag_views,
    version_of,
};
use crate::version::version_text;

verus! {

/// What is known of the previously recorded version.
#[derive(Debug, Clone, PartialEq, Eq)]
pub enum PreviousState {
    /// No previous record was given.
    Absent,
    /// The record is the empty placeholder document `{}`.
    Placeholder,
    /// A record exists but could not be read as one.
    Unreadable,
    /// The record names this version.
    Recorded(String),
}

/// The version record that a run produces.
#[derive(Debug, Clone, PartialEq, Eq)]
pub struct VersionRecord {
    pub nix_version: String,
}

/// The outcome of a run: whether the recorded version changed, and the
/// current one.
#[derive(Debug, Clone, PartialEq, Eq)]
pub struct UpdateDecision {
    pub needs_update: bool,
    pub current: VersionRecord,
}

/// Why no decision could be made.
#[derive(Debug, Clone, Copy, PartialEq, Eq)]
pub enum DecideError {
    /// No tag names a stable version.
    NoStableVersion,
}

/// What `str::trim` leaves of a text.
pub uninterp spec fn trimmed(s: Seq<char>) -> Seq<char>;

/// Relies on `str::trim`: the text without leading and trailing white space.
#[verifier::external_body]
fn trim_text(s: &str) -> (r: String)
    ensures
        r@ == trimmed(s@),
{
    s.trim().to_string()
}

/// The text of the empty placeholder record.
pub open spec fn placeholder_text() -> Seq<char> {
    seq!['{', '}']
}


/// What a previous record says: the version it names where it reads as a
/// record (`record`), else the placeholder where its content, trimmed, is
/// `{}`, else that it is unreadable.
pub fn classify_previous(content: &str, record: Option<String>) -> (r: PreviousState)
    ensures
        match record {
            Some(v) => (r matches PreviousState::Recorded(w) && w@ == v@),
            None => if trimmed(content@) == placeholder_text() {
                r is Placeholder
            } else {
                r is Unreadable
            },
        },
{
    match record {
        Some(v) => PreviousState::Recorded(v),
        None => {
            let t = trim_text(content);
            proof { reveal_strlit("{}"); }
            let placeholder = String::from_str("{}");
            assert(placeholder@ =~= placeholder_text());
            if t.eq(&placeholder) {
                PreviousState::Placeholder
            } else {
                PreviousState::Unreadable
            }
        },
    }
}

/// An update is needed unless the previous record names exactly `current`.
pub open spec fn needs_update_spec(previous: PreviousState, current: Seq<char>) -> bool {
    match previous {
        PreviousState::Recorded(v) => v@ != current,
        _ => true,
    }
}

/// Whether the current version differs from the previous record; without a
/// readable record, an update is assumed.
pub fn needs_update(previous: &PreviousState, current: &String) -> (r: bool)
    ensures
        r == needs_update_spec(*previous, current@),
{
    match previous {
        PreviousState::Recorded(v) => {
            let same = v.eq(current);
            !same
        },
        _ => true,
    }
}

/// Whether the previous record calls for a diagnostic: it exists and is
/// neither a record nor the placeholder.
pub fn needs_warning(previous: &PreviousState) -> (r: bool)
    ensures
        r == (*previous is Unreadable),
{
    match previous {
        PreviousState::Unreadable => true,
        _ => false,
    }
}

/// `s` is the text of the latest stable version among the tags.
pub open spec fn is_latest_text(tags: Seq<Seq<char>>, s: Seq<char>) -> bool {
    exists|i: int| is_latest(tags, i) && s == version_text(version_of(tags[i]))
}

/// The canonical text of the latest stable version among the tags (the first
/// one where several share its numbers), or `NoStableVersion` where no tag
/// names a stable version.
pub fn get_latest_stable_version(tags: &Vec<String>) -> (r: Result<String, DecideError>)
    ensures
        r is Ok <==> has_stable(tag_views(tags@)),
        match r {
            Ok(s) => is_latest_text(tag_views(tags@), s@),
            Err(e) => e == DecideError::NoStableVersion && !has_stable(tag_views(tags@)),
        },
{
    match latest_stable(tags) {
        Some((i, v)) => {
            let s = v.to_text();
            assert(is_latest(tag_views(tags@), i as int) && s@ == version_text(
                version_of(tag_views(tags@)[i as int]),
            ));
            assert(is_stable_tag(tag_views(tags@)[i as int]));
            Ok(s)
        },
        None => Err(DecideError::NoStableVersion),
    }
}

/// `r` is the decision for the tags and previous record: the latest stable
/// version and whether it differs from the record, or `NoStableVersion`
/// exactly where no tag names a stable version.
pub open spec fn is_decision(
    tags: Seq<Seq<char>>,
    previous: PreviousState,
    r: Result<UpdateDecision, DecideError>,
) -> bool {
    match r {
        Ok(d) => is_latest_text(tags, d.current.nix_version@) && d.needs_update
            == needs_update_spec(previous, d.current.nix_version@),
        Err(e) => e == DecideError::NoStableVersion && !has_stable(tags),
    }
}

/// The update decision for the tags and the previous record.
pub fn decide(tags: &Vec<String>, previous: &PreviousState) -> (r: Result<
    UpdateDecision,
    DecideError,
>)
    ensures
        r is Ok <==> has_stable(tag_views(tags@)),
        is_decision(tag_views(tags@), *previous, r),
{
    match get_latest_stable_version(tags) {
        Ok(s) => {
            let needs = needs_update(previous, &s);
            Ok(UpdateDecision { needs_update: needs, current: VersionRecord { nix_version: s } })
        },
        Err(e) => Err(e),
    }
}

/// Deciding twice on the same tags and previous record gives the same
/// outcome: the same error, or the same current version and update flag.
pub proof fn lemma_decide_deterministic(
    tags: Seq<Seq<char>>,
    previous: PreviousState,
    r1: Result<UpdateDecision, DecideError>,
    r2: Result<UpdateDecision, DecideError>,
)
    requires
        is_decision(tags, previous, r1),
        is_decision(tags, previous, r2),
    ensures
        r1 is Ok <==> r2 is Ok,
        r1 is Err ==> r1 == r2,
        r1 is Ok ==> r1->Ok_0.needs_update == r2->Ok_0.needs_update
            && r1->Ok_0.current.nix_version@ == r2->Ok_0.current.nix_version@,
{
    match (r1, r2) {
        (Ok(d1), Ok(d2)) => {
            let i1 = choose|i: int|
                is_latest(tags, i) && d1.current.nix_version@ == version_text(version_of(tags[i]));
            let i2 = choose|i: int|
                is_latest(tags, i) && d2.current.nix_version@ == version_text(version_of(tags[i]));
            lemma_latest_unique(tags, i1, i2);
        },
        (Ok(d1), Err(_)) => {
            let i1 = choose|i: int|
                is_latest(tags, i) && d1.current.nix_version@ == version_text(version_of(tags[i]));
            assert(is_stable_tag(tags[i1]));
        },
        (Err(_), Ok(d2)) => {
            let i2 = choose|i: int|
                is_latest(tags, i) && d2.current.nix_version@ == version_text(version_of(tags[i]));
            assert(is_stable_tag(tags[i2]));
        },
        (Err(_), Err(_)) => {},
    }
}

} // verus!
