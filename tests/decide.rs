use version_check::decision::{
    classify_previous, decide, get_latest_stable_version, needs_update, needs_warning,
    DecideError, PreviousState, UpdateDecision, VersionRecord,
};
use version_check::select::{latest_stable, parse_tag, strip_v};
use version_check::version::SemVer;

fn tags(list: &[&str]) -> Vec<String> {
    list.iter().map(|t| t.to_string()).collect()
}

fn decision(needs: bool, version: &str) -> UpdateDecision {
    UpdateDecision {
        needs_update: needs,
        current: VersionRecord { nix_version: version.to_string() },
    }
}

#[test]
fn parse_tag_reads_all_parts() {
    let v = parse_tag("1.22.333-rc.1+build.5").unwrap();
    assert_eq!(v.major, 1);
    assert_eq!(v.minor, 22);
    assert_eq!(v.patch, 333);
    assert_eq!(v.pre, "rc.1");
    assert_eq!(v.build, "build.5");
}

#[test]
fn parse_tag_rejects_non_versions() {
    assert_eq!(parse_tag("vv2.24.0"), None);
    assert_eq!(parse_tag("2.24"), None);
    assert_eq!(parse_tag("foo"), None);
    assert_eq!(parse_tag(""), None);
    assert_eq!(parse_tag("02.1.0"), None);
}

#[test]
fn to_text_renders_canonical_form() {
    let v = SemVer {
        major: 10,
        minor: 0,
        patch: 7,
        pre: "rc1".to_string(),
        build: "b2".to_string(),
    };
    assert_eq!(v.to_text(), "10.0.7-rc1+b2");
    let w = SemVer {
        major: u64::MAX,
        minor: 1,
        patch: 1234567890,
        pre: String::new(),
        build: String::new(),
    };
    assert_eq!(w.to_text(), "18446744073709551615.1.1234567890");
    assert!(w.is_stable());
    assert!(!v.is_stable());
}

#[test]
fn strip_v_takes_off_one_v() {
    assert_eq!(strip_v("v2.1.0"), "2.1.0");
    assert_eq!(strip_v("2.1.0"), "2.1.0");
    assert_eq!(strip_v("vv2.1.0"), "v2.1.0");
    assert_eq!(strip_v(""), "");
}

#[test]
fn v_prefix_parses_alike() {
    assert_eq!(parse_tag("v2.1.0"), parse_tag("2.1.0"));
    assert_eq!(parse_tag("2.1.0").unwrap().minor, 1);
    assert_eq!(parse_tag("vv2.1.0"), None);
}

#[test]
fn latest_is_numeric_maximum_in_any_order() {
    let orders = [
        ["2.3.0", "2.24.0", "v2.4.1"],
        ["2.24.0", "v2.4.1", "2.3.0"],
        ["v2.4.1", "2.3.0", "2.24.0"],
    ];
    for order in orders.iter() {
        assert_eq!(get_latest_stable_version(&tags(order)), Ok("2.24.0".to_string()));
    }
}

#[test]
fn prerelease_is_never_selected() {
    let list = tags(&["2.1.0-rc1", "2.0.0", "v3.0.0-beta.2"]);
    assert_eq!(get_latest_stable_version(&list), Ok("2.0.0".to_string()));
}

#[test]
fn equal_numbers_pick_first_seen() {
    let list = tags(&["1.0.0", "v2.24.0+b1", "2.24.0"]);
    assert_eq!(latest_stable(&list).map(|(i, _)| i), Some(1));
    assert_eq!(get_latest_stable_version(&list), Ok("2.24.0+b1".to_string()));
}

#[test]
fn unchanged_version_needs_no_update() {
    let prev = PreviousState::Recorded("2.24.0".to_string());
    let list = tags(&["2.23.0", "v2.24.0"]);
    assert_eq!(decide(&list, &prev), Ok(decision(false, "2.24.0")));
}

#[test]
fn changed_version_needs_update() {
    let prev = PreviousState::Recorded("2.23.0".to_string());
    let list = tags(&["2.23.0", "v2.24.0"]);
    assert_eq!(decide(&list, &prev), Ok(decision(true, "2.24.0")));
}

#[test]
fn placeholder_record_needs_update_without_warning() {
    let prev = classify_previous("{}", None);
    assert_eq!(prev, PreviousState::Placeholder);
    assert!(!needs_warning(&prev));
    assert_eq!(decide(&tags(&["2.24.0"]), &prev), Ok(decision(true, "2.24.0")));
    assert_eq!(classify_previous("  {}\n", None), PreviousState::Placeholder);
}

#[test]
fn invalid_record_needs_update_with_warning() {
    let prev = classify_previous("{not json", None);
    assert_eq!(prev, PreviousState::Unreadable);
    assert!(needs_warning(&prev));
    assert_eq!(decide(&tags(&["2.24.0"]), &prev), Ok(decision(true, "2.24.0")));
    assert_eq!(classify_previous("{ }", None), PreviousState::Unreadable);
}

#[test]
fn readable_record_is_recorded() {
    let prev = classify_previous("{\"nix_version\":\"2.24.0\"}", Some("2.24.0".to_string()));
    assert_eq!(prev, PreviousState::Recorded("2.24.0".to_string()));
    assert!(!needs_warning(&prev));
}

#[test]
fn absent_record_needs_update() {
    assert!(needs_update(&PreviousState::Absent, &"2.24.0".to_string()));
    assert!(!needs_warning(&PreviousState::Absent));
    assert_eq!(decide(&tags(&["2.24.0"]), &PreviousState::Absent), Ok(decision(true, "2.24.0")));
}

#[test]
fn record_compares_as_text() {
    let prev = PreviousState::Recorded("v2.24.0".to_string());
    assert!(needs_update(&prev, &"2.24.0".to_string()));
}

#[test]
fn no_stable_version_is_an_error() {
    let prev = PreviousState::Absent;
    assert_eq!(decide(&tags(&["foo", "bar-baz"]), &prev), Err(DecideError::NoStableVersion));
    assert_eq!(decide(&tags(&["1.0.0-rc1"]), &prev), Err(DecideError::NoStableVersion));
    assert_eq!(decide(&Vec::new(), &prev), Err(DecideError::NoStableVersion));
    assert_eq!(latest_stable(&tags(&["foo"])), None);
}

#[test]
fn deciding_twice_gives_the_same_outcome() {
    let prev = PreviousState::Recorded("2.23.0".to_string());
    let list = tags(&["2.23.0", "v2.24.0", "2.25.0-pre"]);
    assert_eq!(decide(&list, &prev), decide(&list, &prev));
}
