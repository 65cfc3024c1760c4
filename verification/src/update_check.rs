use vstd::prelude::*;
use vstd::string::StringExecFns;
use crate::updates::spec_latest;

verus! {

/// An update check against a project's released tags.  The host fetches the
/// release list; this type owns the coordinates and decides what to report.
pub struct UpdateCheck {
    pub username: String,
    pub repository: String,
    pub local_version: String,
}

impl UpdateCheck {
    pub fn new(username: &str, repository: &str, local_version: &str) -> (r: UpdateCheck)
        ensures
            r.username@ == username@,
            r.repository@ == repository@,
            r.local_version@ == local_version@,
    {
        UpdateCheck {
            username: String::from_str(username),
            repository: String::from_str(repository),
            local_version: String::from_str(local_version),
        }
    }

    /// The user-facing message of a check, from the fetched release tags
    /// (newest first): the newest tag when it is a strictly newer version,
    /// nothing otherwise.
    pub fn newest_update_message(&self, tag_names: &Vec<String>) -> (r: Option<String>)
        ensures
            (r is Some) == (spec_latest(
                tag_names@.map_values(|t: String| t@),
                self.local_version@,
            ) is Some),
            r matches Some(msg) ==> msg@ == "New version available: "@ + tag_names@[0]@,
    {
        match crate::updates::newest_release(tag_names, self.local_version.as_str()) {
            Some(_) => {
                let mut msg = String::from_str("New version available: ");
                msg.append(tag_names[0].as_str());
                Some(msg)
            },
            None => None,
        }
    }
}

} // verus!
