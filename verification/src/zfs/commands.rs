//! What the ZFS commands that change the system are given, and what their
//! outcome means.
use vstd::prelude::*;
use crate::text::{chars_of, string_of, trim, trim_chars};

verus! {

/// The outcome of a command: success, or the failure that its error output
/// (trimmed) describes.
pub fn command_outcome(success: bool, stderr_text: &str) -> (r: Result<(), String>)
    ensures
        success ==> r is Ok,
        !success ==> (r matches Err(e) && e@ == trim(stderr_text@)),
{
    if success {
        Ok(())
    } else {
        let cs = chars_of(stderr_text);
        let t = trim_chars(&cs);
        Err(string_of(&t))
    }
}

/// The name of snapshot `name` of `dataset`: `dataset@name`.
pub fn snapshot_target(dataset: &str, name: &str) -> (t: String)
    ensures
        t@ == dataset@ + "@"@ + name@,
{
    let mut cs = chars_of(dataset);
    let mut at = chars_of("@");
    let mut ns = chars_of(name);
    cs.append(&mut at);
    cs.append(&mut ns);
    string_of(&cs)
}

} // verus!
