use vstd::prelude::*;
use vstd::string::StringExecFns;
use crate::config::CConfig;
use crate::document::{model_text, DiskDocument};
use crate::document::leaves::spec_leaves;
use crate::document::parse::{spec_parse, spec_parse_ok};
use crate::document::patch::spec_patch;
use crate::error::CError;
use crate::scheduler::Scheduler;

verus! {

/// The delay between autosave attempts, in milliseconds.
pub const AUTOSAVE_DELAY_MS: u64 = 4000;

/// The errors of the save path.
#[derive(Debug)]
pub enum Error {
    /// Writing or serializing the patched document failed.
    FailedToSaveConfig(String),
    /// The stored copy of the on-disk document is outside the supported
    /// single-line TOML subset (for example a hand-edited multi-line string
    /// or array).  The save cycle is skipped and reported, and every later
    /// cycle reports the same failure until the file is reformatted; the
    /// file itself is never touched.
    FailedToParseConfigDocument(String),
}

impl CError for Error {
    fn human_message(&self) -> String {
        let mut msg = match self {
            Error::FailedToSaveConfig(_) => String::from_str(
                "Failed to save config toml file! Error: ",
            ),
            Error::FailedToParseConfigDocument(_) => String::from_str(
                "Failed to parse the config toml document! Error: ",
            ),
        };
        let detail = match self {
            Error::FailedToSaveConfig(e) => e,
            Error::FailedToParseConfigDocument(e) => e,
        };
        msg.append(detail.as_str());
        msg
    }

    fn actual_error(&self) -> Option<String> {
        let detail = match self {
            Error::FailedToSaveConfig(e) => e,
            Error::FailedToParseConfigDocument(e) => e,
        };
        Some(detail.clone())
    }
}

/// A save that was prepared but not yet confirmed: the full text to write to
/// disk, and the hash to remember once the write succeeded.  The last known
/// hash only moves forward on a confirmed write, so a failed write is
/// retried on the next cycle.
pub struct PendingSave {
    pub text: String,
    pub hash: u64,
}

/// The text a save writes: the stored disk copy patched with the leaves of
/// the canonical serialization.
pub open spec fn spec_saved_text(disk: Seq<char>, canonical: Seq<char>) -> Seq<char> {
    model_text(spec_patch(spec_parse(disk), spec_leaves(spec_parse(canonical))))
}

/// Formatting preservation, seen from the save path: when every canonical
/// leaf already stands in the on-disk text with an equal value, the text a
/// save writes is byte-identical to the stored copy.
pub proof fn lemma_save_preserves_formatting(disk: Seq<char>, canonical: Seq<char>)
    requires
        spec_parse_ok(disk),
        forall|i: int|
            0 <= i < spec_leaves(spec_parse(canonical)).len()
                ==> crate::document::laws::leaf_up_to_date(
                spec_parse(disk),
                #[trigger] spec_leaves(spec_parse(canonical))[i],
            ),
    ensures
        spec_saved_text(disk, canonical) == disk,
{
    crate::document::laws::lemma_patch_preserves_formatting(
        spec_parse(disk),
        spec_leaves(spec_parse(canonical)),
    );
    crate::document::parse::lemma_parse_text(disk);
}

/// Owns the canonical configuration, detects changes by content hash, and
/// prepares the patched on-disk text on save.  The host performs the actual
/// file write and confirms it with [`ConfigManager::commit_save`].
pub struct ConfigManager<T: CConfig> {
    /// The canonical configuration value the application reads and mutates.
    pub config: T,
    /// The hash observed at the most recent confirmed save.
    pub last_config_hash: u64,
    /// The formatted text of the last successfully written on-disk copy.
    pub config_disk_string_copy: String,
    /// The pending autosave action, when one is scheduled.
    pub config_autosave_schedule: Option<Scheduler>,
}

/// The schedule in effect on a tick: the stored one, or the fresh one the
/// tick creates.
pub open spec fn spec_schedule(o: Option<Scheduler>, now_ms: u64) -> Scheduler {
    match o {
        Some(s) => s,
        None => Scheduler { delay: AUTOSAVE_DELAY_MS, time_scheduled: now_ms, done: false },
    }
}

impl<T: CConfig> ConfigManager<T> {
    /// Takes ownership of the freshly loaded configuration, its content
    /// hash, and the text of the on-disk copy it was read from.  The caller
    /// computes the hash (`config.config_hash()`) so the contract can pin
    /// the starting point of change detection.
    pub fn new(config: T, config_hash: u64, disk_copy: String) -> (r: ConfigManager<T>)
        ensures
            r.config == config,
            r.last_config_hash == config_hash,
            r.config_disk_string_copy == disk_copy,
            r.config_autosave_schedule is None,
    {
        ConfigManager {
            config,
            last_config_hash: config_hash,
            config_disk_string_copy: disk_copy,
            config_autosave_schedule: None,
        }
    }

    /// The change detector: the configuration diverged from the last
    /// confirmed save exactly when the hashes differ.
    pub fn has_changed(&self, current_hash: u64) -> (r: bool)
        ensures
            r == (current_hash != self.last_config_hash),
    {
        current_hash != self.last_config_hash
    }

    /// One autosave tick: keeps a schedule alive and reports whether it
    /// fired this tick.  A fresh schedule is created when none is pending;
    /// a fired schedule is discarded, so the next tick starts a new one.
    pub fn update(&mut self, now_ms: u64) -> (due: bool)
        ensures
            due == ({
                let s = spec_schedule(old(self).config_autosave_schedule, now_ms);
                !s.done && s.due(now_ms)
            }),
            final(self).config_autosave_schedule == if due {
                None::<Scheduler>
            } else {
                Some(spec_schedule(old(self).config_autosave_schedule, now_ms))
            },
            final(self).config == old(self).config,
            final(self).last_config_hash == old(self).last_config_hash,
            final(self).config_disk_string_copy == old(self).config_disk_string_copy,
    {
        if self.config_autosave_schedule.is_none() {
            self.config_autosave_schedule = Some(Scheduler::new(AUTOSAVE_DELAY_MS, now_ms));
        }
        let fired = match &mut self.config_autosave_schedule {
            Some(s) => s.update(now_ms),
            None => false,
        };
        if fired {
            self.config_autosave_schedule = None;
        }
        fired
    }

    /// Prepares an unconditional save: parses the stored disk copy and the
    /// canonical serialization, patches only the differing leaves into the
    /// disk document, and hands back the full text to write.
    pub fn save(&self, current_hash: u64, canonical_toml: &str) -> (r: Result<PendingSave, Error>)
        ensures
            (r is Ok) == (spec_parse_ok(self.config_disk_string_copy@) && spec_parse_ok(
                canonical_toml@,
            )),
            r matches Ok(p) ==> p.text@ == spec_saved_text(
                self.config_disk_string_copy@,
                canonical_toml@,
            ) && p.hash == current_hash,
            !spec_parse_ok(self.config_disk_string_copy@) ==> (r matches Err(e)
                && e is FailedToParseConfigDocument),
            spec_parse_ok(self.config_disk_string_copy@) && !spec_parse_ok(canonical_toml@)
                ==> (r matches Err(e) && e is FailedToSaveConfig),
    {
        let mut disk_doc = match DiskDocument::parse(self.config_disk_string_copy.as_str()) {
            Ok(d) => d,
            Err(_) => {
                return Err(
                    Error::FailedToParseConfigDocument(
                        String::from_str(
                            "the stored copy of the config file is outside the supported toml subset",
                        ),
                    ),
                );
            },
        };
        let canonical_doc = match DiskDocument::parse(canonical_toml) {
            Ok(d) => d,
            Err(_) => {
                return Err(
                    Error::FailedToSaveConfig(
                        String::from_str(
                            "the serialized config is outside the supported toml subset",
                        ),
                    ),
                );
            },
        };
        disk_doc.patch(&canonical_doc);
        let text = disk_doc.to_text();
        Ok(PendingSave { text, hash: current_hash })
    }

    /// Attempts a save only when the configuration changed: `Ok(None)` when
    /// the hash is unchanged, `Ok(Some(_))` with the text to write when it
    /// differs, and the parse error of the save path otherwise.
    pub fn save_if_changed(&self, current_hash: u64, canonical_toml: &str) -> (r: Result<
        Option<PendingSave>,
        Error,
    >)
        ensures
            current_hash == self.last_config_hash ==> r matches Ok(None),
            current_hash != self.last_config_hash ==> ((r is Ok) == (spec_parse_ok(
                self.config_disk_string_copy@,
            ) && spec_parse_ok(canonical_toml@))),
            current_hash != self.last_config_hash && r is Ok ==> r matches Ok(Some(_)),
            r matches Ok(Some(p)) ==> p.text@ == spec_saved_text(
                self.config_disk_string_copy@,
                canonical_toml@,
            ) && p.hash == current_hash && current_hash != self.last_config_hash,
            current_hash != self.last_config_hash && !spec_parse_ok(self.config_disk_string_copy@)
                ==> (r matches Err(e) && e is FailedToParseConfigDocument),
            current_hash != self.last_config_hash && spec_parse_ok(self.config_disk_string_copy@)
                && !spec_parse_ok(canonical_toml@) ==> (r matches Err(e)
                && e is FailedToSaveConfig),
    {
        if !self.has_changed(current_hash) {
            return Ok(None);
        }
        match self.save(current_hash, canonical_toml) {
            Ok(p) => Ok(Some(p)),
            Err(e) => Err(e),
        }
    }

    /// Confirms a successful write: the disk copy and the last known hash
    /// move forward together, and only now.
    pub fn commit_save(&mut self, pending: PendingSave)
        ensures
            final(self).last_config_hash == pending.hash,
            final(self).config_disk_string_copy == pending.text,
            final(self).config == old(self).config,
            final(self).config_autosave_schedule == old(self).config_autosave_schedule,
    {
        self.config_disk_string_copy = pending.text;
        self.last_config_hash = pending.hash;
    }
}

} // verus!
