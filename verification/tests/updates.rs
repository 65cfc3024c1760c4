use cirrus::about::authors_toml_to_about_authors;
use cirrus::notifier::log_message;
use cirrus::sections::{Section, SectionDisplayInfo, SectionOverrides};
use cirrus::update_check::UpdateCheck;
use cirrus::updates::{newest_release, Version};

#[test]
fn version_parsing() {
    assert_eq!(Version::parse("1.2.3"), Some(Version { major: 1, minor: 2, patch: 3 }));
    assert_eq!(Version::parse("0.0.0"), Some(Version { major: 0, minor: 0, patch: 0 }));
    assert_eq!(Version::parse("10.20.30"), Some(Version { major: 10, minor: 20, patch: 30 }));
    assert_eq!(Version::parse("1.2"), None);
    assert_eq!(Version::parse("1.2.3.4"), None);
    assert_eq!(Version::parse("1.2.x"), None);
    assert_eq!(Version::parse(""), None);
}

#[test]
fn version_ordering() {
    let v = |a, b, c| Version { major: a, minor: b, patch: c };
    assert!(v(2, 0, 0).newer_than(&v(1, 9, 9)));
    assert!(v(1, 10, 0).newer_than(&v(1, 9, 9)));
    assert!(v(1, 9, 10).newer_than(&v(1, 9, 9)));
    assert!(!v(1, 9, 9).newer_than(&v(1, 9, 9)));
    assert!(!v(1, 9, 8).newer_than(&v(1, 9, 9)));
}

#[test]
fn newest_release_strips_the_v_prefix() {
    let tags = vec!["v2.0.0".to_string(), "v1.0.0".to_string()];
    assert_eq!(newest_release(&tags, "1.9.9"), Some(Version { major: 2, minor: 0, patch: 0 }));
    assert_eq!(newest_release(&tags, "2.0.0"), None);
    assert_eq!(newest_release(&vec![], "1.0.0"), None);
    assert_eq!(newest_release(&vec!["not-a-version".to_string()], "1.0.0"), None);
}

#[test]
fn update_check_builds_its_message() {
    let check = UpdateCheck::new("someone", "something", "1.0.0");
    assert_eq!(check.username, "someone");
    assert_eq!(check.repository, "something");

    let tags = vec!["v1.2.0".to_string()];
    assert_eq!(
        check.newest_update_message(&tags),
        Some("New version available: v1.2.0".to_string())
    );
    let old = vec!["v0.9.0".to_string()];
    assert_eq!(check.newest_update_message(&old), None);
}

#[test]
fn log_message_collapses_and_appends() {
    assert_eq!(
        log_message("Failed! \n\nError: x", Some("detail")),
        "Failed! \nError: x\nActual Error: detail"
    );
    assert_eq!(log_message("plain \n\n\n text", None), "plain \n\n\n text");
    assert_eq!(log_message("a\n\nb", None), "a\n\nb");
    assert_eq!(log_message("a\n\nb", Some("d")), "a\nb\nActual Error: d");
}

#[test]
fn section_keeps_what_it_is_given() {
    let section = Section::new(
        "misc.enable_custom_folder".to_string(),
        true,
        SectionOverrides { choices: None, int_range: None, text_edit_placeholder: None },
        SectionDisplayInfo { name: Some("Custom folder".to_string()), description: None },
    );
    assert_eq!(section.config_key_path, "misc.enable_custom_folder");
    assert!(section.config_key);
    assert_eq!(section.display_info.name.as_deref(), Some("Custom folder"));
}

#[test]
fn authors_toml_parses_in_order() {
    let text = "[[authors]]\nname = \"Ada\"\ngithub = \"ada\"\n\n[[authors]]\nname = \"Bob\"\ngithub = \"bob\"\nemail = \"bob@example.org\"\n";
    let authors = authors_toml_to_about_authors(&text.to_string());
    assert_eq!(authors.len(), 2);
    assert_eq!(authors[0].name, "Ada");
    assert_eq!(authors[0].github, "ada");
    assert!(authors[0].email.is_none());
    assert_eq!(authors[1].name, "Bob");
    assert_eq!(authors[1].email.as_deref(), Some("bob@example.org"));
}
