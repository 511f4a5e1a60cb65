use ferium::add::Error;
use ferium::summary::{capped_byte_len, display_successes_failures, group_failures, FailureReport};
use ferium::upgrade::check;

fn failures() -> Vec<(String, Error)> {
    vec![
        ("sodium".to_string(), Error::AlreadyAdded),
        ("12345".to_string(), Error::DoesNotExist),
        ("iris".to_string(), Error::AlreadyAdded),
        ("lithium".to_string(), Error::Incompatible(check::Error::IntersectFailure)),
        ("foo".to_string(), Error::DoesNotExist),
    ]
}

#[test]
fn failures_grouped_by_message_in_first_order() {
    let groups = group_failures(failures());
    assert_eq!(groups.len(), 3);
    assert_eq!(groups[0].message, "The project has already been added");
    assert_eq!(groups[0].ids, vec!["sodium", "iris"]);
    assert_eq!(groups[1].message, "The project does not exist");
    assert_eq!(groups[1].ids, vec!["12345", "foo"]);
    assert_eq!(
        groups[2].message,
        "The project is not compatible because Failed to find a compatible combination"
    );
    assert_eq!(groups[2].ids, vec!["lithium"]);
}

#[test]
fn grouped_report_pads_to_longest_message_at_most_fifty() {
    let report = display_successes_failures(&vec!["Starlight".to_string()], failures());
    assert!(report.exit_error);
    match report.failures {
        FailureReport::Grouped { groups, pad } => {
            assert_eq!(groups.len(), 3);
            assert_eq!(pad, 50);
        }
        _ => panic!("expected grouped failures"),
    }
    let only_missing = vec![("a".to_string(), Error::DoesNotExist), ("b".to_string(), Error::NotAMod)];
    let report = display_successes_failures(&Vec::new(), only_missing);
    match report.failures {
        FailureReport::Grouped { pad, .. } => assert_eq!(pad, "The project does not exist".len()),
        _ => panic!("expected grouped failures"),
    }
}

#[test]
fn single_failure_shown_alone() {
    let report = display_successes_failures(&Vec::new(), vec![("sodium".to_string(), Error::AlreadyAdded)]);
    assert!(!report.exit_error);
    match report.failures {
        FailureReport::Single { message, warning } => {
            assert_eq!(message, "The project has already been added");
            assert!(warning);
        }
        _ => panic!("expected a single failure"),
    }
    let report = display_successes_failures(&Vec::new(), vec![("x".to_string(), Error::InvalidIdentifier)]);
    assert!(report.exit_error);
    match report.failures {
        FailureReport::Single { message, warning } => {
            assert_eq!(message, "The identifier provided is not in the correct format");
            assert!(!warning);
        }
        _ => panic!("expected a single failure"),
    }
}

#[test]
fn already_added_only_is_not_a_failure() {
    let fs = vec![
        ("sodium".to_string(), Error::AlreadyAdded),
        ("iris".to_string(), Error::AlreadyAdded),
    ];
    let report = display_successes_failures(&Vec::new(), fs);
    assert!(!report.exit_error);
    let report = display_successes_failures(&vec!["Starlight".to_string()], Vec::new());
    assert!(!report.exit_error);
    match report.failures {
        FailureReport::Grouped { groups, pad } => {
            assert!(groups.is_empty());
            assert_eq!(pad, 0);
        }
        _ => panic!("expected grouped failures"),
    }
}

#[test]
fn with_successes_a_single_failure_is_grouped() {
    let report = display_successes_failures(
        &vec!["Starlight".to_string()],
        vec![("sodium".to_string(), Error::GitHubError("rate limited".to_string()))],
    );
    assert!(report.exit_error);
    match report.failures {
        FailureReport::Grouped { groups, pad } => {
            assert_eq!(groups.len(), 1);
            assert_eq!(groups[0].message, "GitHub: rate limited");
            assert_eq!(pad, "GitHub: rate limited".len());
        }
        _ => panic!("expected grouped failures"),
    }
}

#[test]
fn capped_length_counts_bytes() {
    assert_eq!(capped_byte_len("héllo", 50), 6);
    assert_eq!(capped_byte_len("abcdef", 3), 3);
    assert_eq!(capped_byte_len("", 0), 0);
}
