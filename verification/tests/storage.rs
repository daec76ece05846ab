use vpnman::clock::{
    age_at, age_title, calendar_date, current_time, days_ago_title, iso8601_seconds, Timestamp,
};
use vpnman::storage::{
    compose_id, config_dir, ensure_dirs, join_path, minica_config_path, profile_location,
    profile_paths, profiles_dir, slugify, template_location, template_paths, templates_dir,
    unique_id, valid_storage_id, StoredPaths,
};

fn at(seconds: i64) -> Timestamp {
    Timestamp { seconds, nanos: 0 }
}

#[test]
fn identifiers() {
    assert!(valid_storage_id("20240101120000-laptop-01_x"));
    for id in ["", "a/b", "..", "a.b", "é", "a b", "%2e"] {
        assert!(!valid_storage_id(id), "{id}");
    }
}

#[test]
fn slugs() {
    assert_eq!(slugify("Laptop 01"), "laptop-01");
    assert_eq!(slugify("--A__b--"), "a-b");
    assert_eq!(slugify("Jürgen's PC"), "j-rgen-s-pc");
    assert_eq!(slugify("..//.."), "profile");
    assert_eq!(slugify(""), "profile");
}

#[test]
fn a_slug_is_its_own_slug_and_an_identifier() {
    for name in ["Laptop 01", "x", "", "--A__b--", "É"] {
        let slug = slugify(name);
        assert_eq!(slugify(&slug), slug);
        assert!(valid_storage_id(&slug));
    }
}

#[test]
fn composed_identifiers() {
    assert_eq!(compose_id("20240101000000", "a", "ff"), "20240101000000-a-ff");
}

#[test]
fn new_identifiers() {
    let before = current_time().seconds;
    let a = unique_id("template");
    let b = unique_id("template");
    assert_ne!(a, b);
    assert!(valid_storage_id(&a));
    let parts: Vec<&str> = a.split('-').collect();
    assert_eq!(parts.len(), 3);
    assert_eq!(parts[0].len(), 14);
    assert!(parts[0].chars().all(|c| c.is_ascii_digit()));
    assert_eq!(parts[1], "template");
    assert_eq!(parts[2].len(), 32);
    assert!(parts[2].chars().all(|c| c.is_ascii_digit() || ('a'..='f').contains(&c)));
    let stamp = |seconds: i64| {
        chrono::DateTime::from_timestamp(seconds, 0).unwrap().format("%Y%m%d%H%M%S").to_string()
    };
    let after = current_time().seconds;
    assert!(stamp(before).as_str() <= parts[0] && parts[0] <= stamp(after).as_str());
}

#[test]
fn paths_are_those_of_the_standard_library() {
    for base in ["data", "data/", "", "/", "a/b"] {
        for part in ["config", "x", "/abs", "", "a/b"] {
            let expected = std::path::Path::new(base).join(part);
            assert_eq!(join_path(base, part), expected.to_str().unwrap(), "{base} {part}");
        }
    }
}

#[test]
fn directories() {
    assert_eq!(config_dir("data"), "data/config");
    assert_eq!(templates_dir("data"), "data/templates");
    assert_eq!(profiles_dir("data"), "data/profiles");
    assert_eq!(minica_config_path("data"), "data/config/minica.yaml");
    assert_eq!(ensure_dirs("data"), vec!["data/config", "data/templates", "data/profiles"]);
}

#[test]
fn files_of_templates_and_profiles() {
    assert_eq!(
        template_paths("data", "t1"),
        StoredPaths {
            dir: "data/templates/t1".to_string(),
            text: "data/templates/t1/template.ovpn".to_string(),
            metadata: "data/templates/t1/metadata.yaml".to_string(),
        }
    );
    assert_eq!(
        profile_paths("data", "p1"),
        StoredPaths {
            dir: "data/profiles/p1".to_string(),
            text: "data/profiles/p1/profile.ovpn".to_string(),
            metadata: "data/profiles/p1/metadata.yaml".to_string(),
        }
    );
}

#[test]
fn only_identifiers_have_a_place() {
    assert_eq!(template_location("data", "t1"), Ok(template_paths("data", "t1")));
    assert_eq!(profile_location("data", "p1"), Ok(profile_paths("data", "p1")));
    assert_eq!(
        template_location("data", "../t"),
        Err("template ID is not valid".to_string())
    );
    assert_eq!(profile_location("data", ""), Err("profile ID is not valid".to_string()));
}

#[test]
fn places_of_different_identifiers_differ() {
    let a = profile_paths("data", "a");
    let b = profile_paths("data", "b");
    assert_ne!(a.dir, b.dir);
    assert_ne!(a.text, b.text);
}

#[test]
fn instants_are_written() {
    assert_eq!(iso8601_seconds(at(0)), Some("1970-01-01T00:00:00Z".to_string()));
    assert_eq!(
        iso8601_seconds(Timestamp { seconds: 1_709_210_096, nanos: 999_999_999 }),
        Some("2024-02-29T12:34:56Z".to_string())
    );
    assert_eq!(calendar_date(at(1_709_210_096)), Some("2024-02-29".to_string()));
    assert_eq!(calendar_date(at(-1)), Some("1969-12-31".to_string()));
}

#[test]
fn the_calendar_ends() {
    assert!(iso8601_seconds(at(8_210_266_876_799)).is_some());
    assert!(iso8601_seconds(at(8_210_266_876_800)).is_none());
    assert!(iso8601_seconds(at(-8_334_601_228_800)).is_some());
    assert!(iso8601_seconds(at(-8_334_601_228_801)).is_none());
    assert!(calendar_date(at(i64::MAX)).is_none());
    assert!(age_at(at(0), at(i64::MIN)).is_none());
}

#[test]
fn leap_seconds_end_a_minute() {
    assert!(iso8601_seconds(Timestamp { seconds: 59, nanos: 1_999_999_999 }).is_some());
    assert!(iso8601_seconds(Timestamp { seconds: -1, nanos: 1_000_000_000 }).is_some());
    assert!(iso8601_seconds(Timestamp { seconds: 58, nanos: 1_000_000_000 }).is_none());
    assert!(iso8601_seconds(Timestamp { seconds: 59, nanos: 2_000_000_000 }).is_none());
}

#[test]
fn ages() {
    assert_eq!(age_title(-5), "today");
    assert_eq!(age_title(0), "today");
    assert_eq!(age_title(1), "1 day ago");
    assert_eq!(age_title(2), "2 days ago");
    assert_eq!(age_title(i64::MAX), "9223372036854775807 days ago");
}

#[test]
fn ages_at_an_instant() {
    let day = 86_400;
    assert_eq!(age_at(at(0), at(day - 1)), Some("today".to_string()));
    assert_eq!(age_at(at(0), at(day)), Some("1 day ago".to_string()));
    assert_eq!(age_at(at(0), at(3 * day + 7)), Some("3 days ago".to_string()));
    assert_eq!(age_at(at(5 * day), at(0)), Some("today".to_string()));
    let created = Timestamp { seconds: 0, nanos: 1 };
    assert_eq!(age_at(created, at(day)), Some("today".to_string()));
    assert_eq!(
        age_at(at(-8_334_601_228_800), at(8_210_266_876_799)),
        Some("191491528 days ago".to_string())
    );
}

#[test]
fn leap_seconds_count_once_they_are_over() {
    let leap = |seconds: i64| Timestamp { seconds, nanos: 1_500_000_000 };
    let then = |seconds: i64, nanos: u32| Timestamp { seconds, nanos };
    assert_eq!(age_at(leap(59), then(86_459, 500_000_000)), Some("today".to_string()));
    assert_eq!(age_at(leap(59), then(86_460, 0)), Some("1 day ago".to_string()));
    assert_eq!(age_at(leap(59), then(86_459, 1_500_000_000)), Some("1 day ago".to_string()));
    assert_eq!(age_at(then(60, 0), leap(86_459)), Some("today".to_string()));
    assert_eq!(age_at(then(59, 0), leap(86_459)), Some("1 day ago".to_string()));
}

#[test]
fn ages_at_the_clock() {
    assert_eq!(days_ago_title(current_time()), Some("today".to_string()));
    let mut created = current_time();
    created.seconds -= 10 * 86_400 + 60;
    assert_eq!(days_ago_title(created), Some("10 days ago".to_string()));
    assert_eq!(days_ago_title(at(i64::MAX)), None);
}

#[test]
fn the_clock_runs_within_ordinary_seconds() {
    let before = chrono::Utc::now();
    let now = current_time();
    let after = chrono::Utc::now();
    assert!(now.seconds > 0);
    assert!(now.nanos < 1_000_000_000);
    assert!(before.timestamp() <= now.seconds && now.seconds <= after.timestamp());
}

#[test]
fn instants_are_compared() {
    let a = Timestamp { seconds: 5, nanos: 1 };
    assert!(a.is_after(&at(5)));
    assert!(!at(5).is_after(&a));
    assert!(!a.is_after(&a));
    assert!(at(6).is_after(&a));
}
