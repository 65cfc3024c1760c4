use std::hash::{DefaultHasher, Hash, Hasher};

use cirrus::config::{BootstrapEvent, BootstrapState, CConfig, Error as ConfigError};
use cirrus::config_manager::{ConfigManager, Error as SaveError};
use cirrus::error::CError;
use cirrus::scheduler::Scheduler;

#[derive(Hash)]
struct TestConfig {
    name: String,
    port: i64,
}

impl CConfig for TestConfig {
    fn serialize_toml(&self) -> String {
        format!("name = \"{}\"\nport = {}\n", self.name, self.port)
    }

    fn config_hash(&self) -> u64 {
        let mut hasher = DefaultHasher::new();
        self.hash(&mut hasher);
        hasher.finish()
    }
}

#[test]
fn scheduler_fires_exactly_once() {
    let mut s = Scheduler::new(100, 1000);
    assert!(!s.update(1000));
    assert!(!s.update(1050));
    assert!(!s.update(1099));
    assert!(s.update(1100));
    assert!(s.done);
    assert!(!s.update(1100));
    assert!(!s.update(2000));
    assert!(!s.update(u64::MAX));
}

#[test]
fn scheduler_fires_late_polls_too() {
    let mut s = Scheduler::new(10, 0);
    assert!(s.update(5000));
    assert!(!s.update(5000));
}

#[test]
fn hash_round_trip_detects_changes() {
    let mut cfg = TestConfig { name: "a".into(), port: 8080 };
    let before = cfg.config_hash();

    // A no-op mutation keeps the hash.
    cfg.name = "a".into();
    assert_eq!(before, cfg.config_hash());

    // Any field-value mutation changes it.
    cfg.name = "b".into();
    assert_ne!(before, cfg.config_hash());
    cfg.name = "a".into();
    cfg.port = 8081;
    assert_ne!(before, cfg.config_hash());
}

#[test]
fn save_if_changed_only_saves_on_change() {
    let cfg = TestConfig { name: "a".into(), port: 8080 };
    let initial = cfg.config_hash();
    let disk = "name = \"a\" # keep me\nport = 8080\n".to_string();
    let mut mgr = ConfigManager::new(cfg, initial, disk);

    // Nothing changed: the hash matches the stored one.
    let hash = mgr.config.config_hash();
    let toml = mgr.config.serialize_toml();
    assert!(matches!(mgr.save_if_changed(hash, &toml), Ok(None)));

    // Change the config: the save patches only the changed leaf.
    mgr.config.name = "b".into();
    let hash = mgr.config.config_hash();
    let toml = mgr.config.serialize_toml();
    let pending = mgr.save_if_changed(hash, &toml).unwrap().unwrap();
    assert_eq!(pending.text, "name = \"b\" # keep me\nport = 8080\n");

    // Before the write is confirmed the hash still looks changed.
    assert!(mgr.has_changed(hash));
    mgr.commit_save(pending);
    assert!(!mgr.has_changed(hash));
    let toml = mgr.config.serialize_toml();
    assert!(matches!(mgr.save_if_changed(hash, &toml), Ok(None)));
}

#[test]
fn failed_write_is_retried_because_hash_stays() {
    let cfg = TestConfig { name: "a".into(), port: 1 };
    let initial = cfg.config_hash();
    let mut mgr = ConfigManager::new(cfg, initial, "name = \"a\"\nport = 1\n".to_string());
    mgr.config.port = 2;
    let hash = mgr.config.config_hash();
    let toml = mgr.config.serialize_toml();
    let first = mgr.save_if_changed(hash, &toml).unwrap();
    assert!(first.is_some());
    // The write failed: nothing is committed, so the next cycle retries.
    let second = mgr.save_if_changed(hash, &toml).unwrap();
    assert!(second.is_some());
    assert_eq!(first.unwrap().text, second.unwrap().text);
}

#[test]
fn save_errors_name_their_cause() {
    let cfg = TestConfig { name: "a".into(), port: 1 };
    let initial = cfg.config_hash();
    // The stored disk copy is outside the supported grammar.
    let mgr = ConfigManager::new(cfg, initial, "broken toml line\n".to_string());
    match mgr.save(1, "name = \"a\"\n") {
        Err(SaveError::FailedToParseConfigDocument(_)) => {}
        _ => panic!("expected a document parse failure"),
    }
    let err = mgr.save(1, "also broken\n");
    assert!(err.is_err());

    let cfg = TestConfig { name: "a".into(), port: 1 };
    let initial = cfg.config_hash();
    let mgr = ConfigManager::new(cfg, initial, "name = \"a\"\n".to_string());
    match mgr.save(1, "broken canonical\n") {
        Err(SaveError::FailedToSaveConfig(_)) => {}
        _ => panic!("expected a canonical serialization failure"),
    }
    let msg = SaveError::FailedToSaveConfig("detail".to_string()).human_message();
    assert!(msg.contains("Failed to save config toml file!"));
    assert!(msg.contains("detail"));
}

#[test]
fn autosave_tick_waits_for_the_delay() {
    let cfg = TestConfig { name: "a".into(), port: 1 };
    let initial = cfg.config_hash();
    let mut mgr = ConfigManager::new(cfg, initial, "name = \"a\"\nport = 1\n".to_string());

    // The first tick schedules, later ticks wait for the 4 s delay.
    assert!(!mgr.update(1000));
    assert!(!mgr.update(3000));
    assert!(!mgr.update(4999));
    assert!(mgr.update(5000));
    // The fired schedule is discarded; a fresh one starts on the next tick.
    assert!(mgr.config_autosave_schedule.is_none());
    assert!(!mgr.update(5000));
    assert!(!mgr.update(8999));
    assert!(mgr.update(9000));
}

#[test]
fn bootstrap_first_run_writes_the_template() {
    let s = BootstrapState::Start;
    let s = s.step(BootstrapEvent::DirProbed { exists: false });
    assert!(matches!(s, BootstrapState::NeedDir));
    let s = s.step(BootstrapEvent::DirCreated { ok: true, detail: String::new() });
    assert!(matches!(s, BootstrapState::DirReady));
    let s = s.step(BootstrapEvent::FileProbed { exists: false });
    assert!(matches!(s, BootstrapState::FileMissing));
    let s = s.step(BootstrapEvent::TemplateWrite { ok: true, detail: String::new() });
    assert!(matches!(s, BootstrapState::TemplateWritten));
    let s = s.step(BootstrapEvent::Parsed { ok: true, detail: String::new() });
    assert!(matches!(s, BootstrapState::Complete));
}

#[test]
fn bootstrap_reads_an_existing_file() {
    let s = BootstrapState::Start;
    let s = s.step(BootstrapEvent::DirProbed { exists: true });
    let s = s.step(BootstrapEvent::FileProbed { exists: true });
    assert!(matches!(s, BootstrapState::FileFound));
    let s = s.step(BootstrapEvent::FileRead { ok: true, data: "name = \"a\"".into() });
    match &s {
        BootstrapState::ReadDone { content } => assert_eq!(content, "name = \"a\""),
        _ => panic!("expected the read content"),
    }
    let s = s.step(BootstrapEvent::Parsed { ok: true, detail: String::new() });
    assert!(matches!(s, BootstrapState::Complete));
}

#[test]
fn bootstrap_failures_carry_their_error_kind() {
    let s = BootstrapState::NeedDir.step(BootstrapEvent::DirCreated {
        ok: false,
        detail: "denied".into(),
    });
    match s {
        BootstrapState::Failed { error: ConfigError::FailedToCreateConfigDirectory(d) } => {
            assert_eq!(d, "denied");
        }
        _ => panic!("expected a directory creation failure"),
    }

    let s = BootstrapState::TemplateWritten.step(BootstrapEvent::Parsed {
        ok: false,
        detail: "bad template".into(),
    });
    match s {
        BootstrapState::Failed { error: ConfigError::FailedToParseTemplate(d) } => {
            assert_eq!(d, "bad template");
            let msg = ConfigError::FailedToParseTemplate("bad template".into()).human_message();
            assert!(msg.contains("template"));
        }
        _ => panic!("expected a template parse failure"),
    }

    let s = BootstrapState::FileFound.step(BootstrapEvent::FileRead {
        ok: false,
        data: "io error".into(),
    });
    match s {
        BootstrapState::Failed { error: ConfigError::FailedToReadConfig(d) } => {
            assert_eq!(d, "io error");
        }
        _ => panic!("expected a read failure"),
    }
}

#[test]
fn save_with_no_difference_writes_identical_text() {
    let cfg = TestConfig { name: "a".into(), port: 8080 };
    let initial = cfg.config_hash();
    let disk = "# heavily formatted\nname    = \"a\"   # odd spacing\nport = 8080\n";
    let mgr = ConfigManager::new(cfg, initial, disk.to_string());
    let toml = mgr.config.serialize_toml();
    let pending = mgr.save(42, &toml).unwrap();
    assert_eq!(pending.text, disk);
    assert_eq!(pending.hash, 42);
}

#[test]
fn committed_save_becomes_the_next_disk_copy() {
    let cfg = TestConfig { name: "a".into(), port: 1 };
    let initial = cfg.config_hash();
    let mut mgr = ConfigManager::new(cfg, initial, "name = \"a\" # c\nport = 1\n".to_string());
    mgr.config.port = 2;
    let hash = mgr.config.config_hash();
    let toml = mgr.config.serialize_toml();
    let pending = mgr.save_if_changed(hash, &toml).unwrap().unwrap();
    let written = pending.text.clone();
    mgr.commit_save(pending);
    assert_eq!(mgr.config_disk_string_copy, written);

    // The next cycle parses the committed text and again preserves it.
    mgr.config.name = "b".into();
    let hash = mgr.config.config_hash();
    let toml = mgr.config.serialize_toml();
    let next = mgr.save_if_changed(hash, &toml).unwrap().unwrap();
    assert_eq!(next.text, "name = \"b\" # c\nport = 2\n");
}
