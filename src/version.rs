//! Semantic versions as plain values, and their canonical text.
use vstd::prelude::*;

verus! {

/// A parsed version as plain values: major, minor, patch, pre-release
/// label and build metadata (the labels are empty where absent).
pub type SemVerView = (u64, u64, u64, Seq<char>, Seq<char>);

/// What `semver::Version::parse` yields on a text, as plain values.
pub uninterp spec fn semver_parse(s: Seq<char>) -> Option<(u64, u64, u64, Seq<char>, Seq<char>)>;

/// A semantic version: three numbers and two labels.
#[derive(Debug, Clone, PartialEq, Eq)]
pub struct SemVer {
    pub major: u64,
    pub minor: u64,
    pub patch: u64,
    pub pre: String,
    pub build: String,
}

impl View for SemVer {
    type V = SemVerView;

    open spec fn view(&self) -> SemVerView {
        (self.major, self.minor, self.patch, self.pre@, self.build@)
    }
}

/// The view of an optional version.
pub open spec fn opt_view(r: Option<SemVer>) -> Option<SemVerView> {
    match r {
        Some(v) => Some(v@),
        None => None,
    }
}

/// Relies on `semver::Version::parse` (and the `as_str` of its two labels):
/// the version that the standard grammar reads from the text, if any.
#[verifier::external_body]
pub(crate) fn parse_semver(s: &str) -> (r: Option<SemVer>)
    ensures
        opt_view(r) == semver_parse(s@),
{
    match semver::Version::parse(s) {
        Ok(v) => Some(SemVer {
            major: v.major,
            minor: v.minor,
            patch: v.patch,
            pre: v.pre.as_str().to_string(),
            build: v.build.as_str().to_string(),
        }),
        Err(_) => None,
    }
}

/// The decimal digit for `d < 10`.
pub open spec fn digit_char(d: nat) -> char {
    if d == 0 { '0' }
    else if d == 1 { '1' }
    else if d == 2 { '2' }
    else if d == 3 { '3' }
    else if d == 4 { '4' }
    else if d == 5 { '5' }
    else if d == 6 { '6' }
    else if d == 7 { '7' }
    else if d == 8 { '8' }
    else { '9' }
}

/// The decimal numeral of `n`, without leading zeros.
pub open spec fn decimal(n: nat) -> Seq<char>
    decreases n,
{
    if n < 10 {
        seq![digit_char(n)]
    } else {
        decimal(n / 10) + seq![digit_char(n % 10)]
    }
}

/// `label` with `sep` in front, or nothing where the label is empty.
pub open spec fn tagged(sep: char, label: Seq<char>) -> Seq<char> {
    if label.len() == 0 {
        Seq::empty()
    } else {
        seq![sep] + label
    }
}

/// The canonical text of a version: `major.minor.patch`, then `-pre` and
/// `+build` where those are present.
pub open spec fn version_text(v: SemVerView) -> Seq<char> {
    decimal(v.0 as nat) + seq!['.'] + decimal(v.1 as nat) + seq!['.'] + decimal(v.2 as nat)
        + tagged('-', v.3) + tagged('+', v.4)
}

fn digit_str(d: u64) -> (r: &'static str)
    requires
        d < 10,
    ensures
        r@ == seq![digit_char(d as nat)],
{
    if d == 0 {
        proof { reveal_strlit("0"); }
        "0"
    } else if d == 1 {
        proof { reveal_strlit("1"); }
        "1"
    } else if d == 2 {
        proof { reveal_strlit("2"); }
        "2"
    } else if d == 3 {
        proof { reveal_strlit("3"); }
        "3"
    } else if d == 4 {
        proof { reveal_strlit("4"); }
        "4"
    } else if d == 5 {
        proof { reveal_strlit("5"); }
        "5"
    } else if d == 6 {
        proof { reveal_strlit("6"); }
        "6"
    } else if d == 7 {
        proof { reveal_strlit("7"); }
        "7"
    } else if d == 8 {
        proof { reveal_strlit("8"); }
        "8"
    } else {
        proof { reveal_strlit("9"); }
        "9"
    }
}

/// Appends the decimal numeral of `n` to `out`.
pub fn push_decimal(out: &mut String, n: u64)
    ensures
        final(out)@ == old(out)@ + decimal(n as nat),
    decreases n,
{
    if n < 10 {
        out.append(digit_str(n));
    } else {
        push_decimal(out, n / 10);
        out.append(digit_str(n % 10));
        assert(final(out)@ =~= old(out)@ + decimal(n as nat));
    }
}

impl SemVer {
    /// The canonical text of the version, as `semver::Version` displays it.
    pub fn to_text(&self) -> (r: String)
        ensures
            r@ == version_text(self@),
    {
        let mut out = String::new();
        push_decimal(&mut out, self.major);
        proof { reveal_strlit("."); }
        out.append(".");
        push_decimal(&mut out, self.minor);
        out.append(".");
        push_decimal(&mut out, self.patch);
        let ghost head = out@;
        if !self.pre.as_str().is_empty() {
            proof { reveal_strlit("-"); }
            out.append("-");
            out.append(self.pre.as_str());
        }
        assert(out@ =~= head + tagged('-', self.pre@));
        let ghost mid = out@;
        if !self.build.as_str().is_empty() {
            proof { reveal_strlit("+"); }
            out.append("+");
            out.append(self.build.as_str());
        }
        assert(out@ =~= mid + tagged('+', self.build@));
        assert(out@ =~= version_text(self@));
        out
    }

    /// Whether the version has no pre-release label.
    pub fn is_stable(&self) -> (r: bool)
        ensures
            r == (self.pre@.len() == 0),
    {
        self.pre.as_str().is_empty()
    }
}

} // verus!
