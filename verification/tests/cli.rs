//! Headless provisioning from the command line.

use signage_desktop::cli::{parse, Provisioning};

#[test]
fn separate_and_inline_forms_both_work() {
    let parsed = parse(&[
        "signage-desktop",
        "--server",
        "192.168.1.10:8080",
        "--store=710",
        "--name",
        "tv-entrada-01",
    ]);
    assert_eq!(
        parsed,
        Provisioning {
            server: Some("192.168.1.10:8080".into()),
            store: Some("710".into()),
            name: Some("tv-entrada-01".into()),
        }
    );
}

#[test]
fn omitted_flags_stay_none_so_they_leave_the_field_alone() {
    let parsed = parse(&["signage-desktop", "--store", "704"]);
    assert_eq!(parsed.store.as_deref(), Some("704"));
    assert_eq!(parsed.server, None);
    assert_eq!(parsed.name, None);
}

#[test]
fn a_flag_with_no_value_does_not_swallow_the_next_flag() {
    let parsed = parse(&["signage-desktop", "--store", "--name", "tv-01"]);
    assert_eq!(parsed.store, None, "--store had no value");
    assert_eq!(parsed.name.as_deref(), Some("tv-01"));
}

#[test]
fn unknown_arguments_are_ignored() {
    // The OS launches this at logon; we do not control what it appends.
    let parsed = parse(&["signage-desktop", "-psn_0_12345", "--verbose"]);
    assert!(parsed.is_empty());
}

#[test]
fn blank_values_are_not_treated_as_provisioning() {
    let parsed = parse(&["signage-desktop", "--server=  ", "--store", "  "]);
    assert!(parsed.is_empty());
}

#[test]
fn the_last_value_of_a_flag_counts_and_values_are_trimmed() {
    let parsed = parse(&["--name=a", "--name", " b ", "--server", "x=y", "--store=1=2"]);
    assert_eq!(parsed.name.as_deref(), Some("b"));
    assert_eq!(parsed.server.as_deref(), Some("x=y"));
    assert_eq!(parsed.store.as_deref(), Some("1=2"));
    assert!(!parsed.is_empty());
    // A blank value does not take back an earlier one.
    assert_eq!(parse(&["--name=a", "--name= "]).name.as_deref(), Some("a"));
    assert_eq!(parse(&["--name"]), Provisioning::default());
    assert_eq!(parse(&[]), Provisioning::default());
}
