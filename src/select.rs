//! Picking the latest stable version out of a list of tag names.
use vstd::prelude::*;
use crate::version::{opt_view, parse_semver, semver_parse, SemVer, SemVerView};

verus! {

/// The tag with one leading `v` taken off, if it has one.
pub open spec fn strip_v_spec(t: Seq<char>) -> Seq<char> {
    if t.len() > 0 && t[0] == 'v' {
        t.drop_first()
    } else {
        t
    }
}

/// The version that a tag names, if any.
pub open spec fn parsed_tag(t: Seq<char>) -> Option<SemVerView> {
    semver_parse(strip_v_spec(t))
}

/// The version that a tag names, where it names one.
pub open spec fn version_of(t: Seq<char>) -> SemVerView {
    parsed_tag(t)->0
}

/// The tag names a version without a pre-release label.
pub open spec fn is_stable_tag(t: Seq<char>) -> bool {
    &&& parsed_tag(t) is Some
    &&& version_of(t).3.len() == 0
}

/// `a` comes before `b` by major, then minor, then patch number.
pub open spec fn precedes(a: SemVerView, b: SemVerView) -> bool {
    ||| a.0 < b.0
    ||| (a.0 == b.0 && a.1 < b.1)
    ||| (a.0 == b.0 && a.1 == b.1 && a.2 < b.2)
}

/// The numbers of `a` and `b` agree.
pub open spec fn same_numbers(a: SemVerView, b: SemVerView) -> bool {
    a.0 == b.0 && a.1 == b.1 && a.2 == b.2
}

/// Some tag names a stable version.
pub open spec fn has_stable(tags: Seq<Seq<char>>) -> bool {
    exists|i: int| 0 <= i < tags.len() && is_stable_tag(#[trigger] tags[i])
}

/// Tag `i` names a stable version that no stable tag exceeds, and every
/// stable tag before it names a smaller one.
pub open spec fn is_latest(tags: Seq<Seq<char>>, i: int) -> bool {
    &&& 0 <= i < tags.len()
    &&& is_stable_tag(tags[i])
    &&& forall|j: int|
        0 <= j < tags.len() && is_stable_tag(#[trigger] tags[j])
            ==> !precedes(version_of(tags[i]), version_of(tags[j]))
    &&& forall|j: int|
        0 <= j < i && is_stable_tag(#[trigger] tags[j])
            ==> precedes(version_of(tags[j]), version_of(tags[i]))
}

/// The tags as character sequences.
pub open spec fn tag_views(tags: Seq<String>) -> Seq<Seq<char>> {
    tags.map_values(|t: String| t@)
}

/// Relies on `str::strip_prefix`: the rest of the text after a leading `v`,
/// or `None` where the text does not start with one.
#[verifier::external_body]
fn strip_prefix_v(s: &str) -> (r: Option<&str>)
    ensures
        match r {
            Some(t) => s@.len() > 0 && s@[0] == 'v' && t@ == s@.drop_first(),
            None => !(s@.len() > 0 && s@[0] == 'v'),
        },
{
    s.strip_prefix('v')
}

/// The tag with one leading `v` taken off, if it has one.
pub fn strip_v(tag: &str) -> (r: &str)
    ensures
        r@ == strip_v_spec(tag@),
{
    match strip_prefix_v(tag) {
        Some(t) => t,
        None => tag,
    }
}

/// The version that a tag names, if any.
pub fn parse_tag(tag: &str) -> (r: Option<SemVer>)
    ensures
        opt_view(r) == parsed_tag(tag@),
{
    parse_semver(strip_v(tag))
}

fn precedes_exec(a: &SemVer, b: &SemVer) -> (r: bool)
    ensures
        r == precedes(a@, b@),
{
    a.major < b.major || (a.major == b.major && a.minor < b.minor) || (a.major == b.major
        && a.minor == b.minor && a.patch < b.patch)
}

/// The position and version of the latest stable tag; among tags with equal
/// numbers, the first one. `None` where no tag names a stable version.
pub fn latest_stable(tags: &Vec<String>) -> (r: Option<(usize, SemVer)>)
    ensures
        r is None <==> !has_stable(tag_views(tags@)),
        r matches Some((i, v)) ==> is_latest(tag_views(tags@), i as int) && parsed_tag(
            tag_views(tags@)[i as int],
        ) == Some(v@),
{
    let ghost ts = tag_views(tags@);
    let mut best: Option<(usize, SemVer)> = None;
    let mut k: usize = 0;
    while k < tags.len()
        invariant
            k <= tags.len(),
            ts == tag_views(tags@),
            ts.len() == tags@.len(),
            best is None ==> forall|j: int| 0 <= j < k ==> !is_stable_tag(#[trigger] ts[j]),
            best matches Some((i, v)) ==> {
                &&& i < k
                &&& is_stable_tag(ts[i as int])
                &&& parsed_tag(ts[i as int]) == Some(v@)
                &&& forall|j: int|
                    0 <= j < k && is_stable_tag(#[trigger] ts[j]) ==> !precedes(
                        v@,
                        version_of(ts[j]),
                    )
                &&& forall|j: int|
                    0 <= j < i && is_stable_tag(#[trigger] ts[j]) ==> precedes(
                        version_of(ts[j]),
                        v@,
                    )
            },
        decreases tags.len() - k,
    {
        let parsed = parse_tag(tags[k].as_str());
        assert(ts[k as int] == tags@[k as int]@);
        match parsed {
            Some(v) => {
                if v.is_stable() {
                    let replace = match &best {
                        None => true,
                        Some((_, b)) => precedes_exec(b, &v),
                    };
                    if replace {
                        best = Some((k, v));
                    }
                }
            },
            None => {},
        }
        k = k + 1;
    }
    proof {
        if best is None {
            assert(!has_stable(ts));
        }
    }
    best
}

/// A tag with a leading `v` names the same version as the tag without it.
pub proof fn lemma_v_prefix_parses_alike(s: Seq<char>)
    requires
        !(s.len() > 0 && s[0] == 'v'),
    ensures
        parsed_tag(seq!['v'] + s) == parsed_tag(s),
{
    assert((seq!['v'] + s).drop_first() =~= s);
}

/// A tag whose version has a pre-release label is never the latest, whatever
/// its numbers.
pub proof fn lemma_prerelease_never_latest(tags: Seq<Seq<char>>, i: int)
    requires
        0 <= i < tags.len(),
        parsed_tag(tags[i]) is Some,
        version_of(tags[i]).3.len() > 0,
    ensures
        !is_latest(tags, i),
{
}

/// Only one position holds the latest stable tag.
pub proof fn lemma_latest_unique(tags: Seq<Seq<char>>, i: int, j: int)
    requires
        is_latest(tags, i),
        is_latest(tags, j),
    ensures
        i == j,
{
    if i < j {
        assert(precedes(version_of(tags[i]), version_of(tags[j])));
    } else if j < i {
        assert(precedes(version_of(tags[j]), version_of(tags[i])));
    }
}

/// The latest stable version does not depend on the order of the tags: two
/// lists that hold the same tags give latest versions with the same numbers.
pub proof fn lemma_latest_ignores_order(a: Seq<Seq<char>>, b: Seq<Seq<char>>, i: int, j: int)
    requires
        forall|t: Seq<char>| a.contains(t) <==> b.contains(t),
        is_latest(a, i),
        is_latest(b, j),
    ensures
        same_numbers(version_of(a[i]), version_of(b[j])),
{
    assert(a.contains(a[i]));
    assert(b.contains(a[i]));
    let k = choose|k: int| 0 <= k < b.len() && b[k] == a[i];
    assert(is_stable_tag(b[k]));
    assert(!precedes(version_of(b[j]), version_of(b[k])));
    assert(b.contains(b[j]));
    assert(a.contains(b[j]));
    let m = choose|m: int| 0 <= m < a.len() && a[m] == b[j];
    assert(is_stable_tag(a[m]));
    assert(!precedes(version_of(a[i]), version_of(a[m])));
}

} // verus!
