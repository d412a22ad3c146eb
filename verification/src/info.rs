//! Replies of the informational commands and of failed commands.
use vstd::prelude::*;
use vstd::utf8::{valid_utf8, decode_utf8};
use crate::text::{concat2, concat3, string_from_utf8};
use vstd::string::*;

verus! {

/// The commit shown by `about`: the output of `git rev-parse HEAD` as text,
/// "Unknown" when git could not be run, and a note when the output is not UTF-8.
pub open spec fn commit_text_spec(git_output: Option<Seq<u8>>) -> Seq<char> {
    match git_output {
        None => "Unknown"@,
        Some(bytes) => if valid_utf8(bytes) {
            decode_utf8(bytes)
        } else {
            "Unknown (utf8 parse failure)"@
        },
    }
}

pub open spec fn opt_bytes(o: Option<Vec<u8>>) -> Option<Seq<u8>> {
    match o {
        Some(v) => Some(v@),
        None => None,
    }
}

/// The commit text from the output of git, if it ran.
pub fn commit_text(git_output: Option<Vec<u8>>) -> (s: String)
    ensures
        s@ == commit_text_spec(opt_bytes(git_output)),
{
    match git_output {
        None => String::from_str("Unknown"),
        Some(bytes) => match string_from_utf8(bytes) {
            Some(s) => s,
            None => String::from_str("Unknown (utf8 parse failure)"),
        },
    }
}

/// The reply of `about`.
pub fn about_message(commit: &str) -> (s: String)
    ensures
        s@ == "Server Listing v0.1.0\n\n**Commit Hash:** "@ + commit@,
{
    concat2("Server Listing v0.1.0\n\n**Commit Hash:** ", commit)
}

/// The reply of `accage`: the user's name and when the account was created.
pub fn account_age_message(name: &str, created_at: &str) -> (s: String)
    ensures
        s@ == name@ + "'s account was created at "@ + created_at@,
{
    concat3(name, "'s account was created at ", created_at)
}

/// The reply when a command fails, given the error as `{:?}` prints it.
pub fn command_error_message(error_debug: &str) -> (s: String)
    ensures
        s@ == "There was an error running this command: "@ + error_debug@,
{
    concat2("There was an error running this command: ", error_debug)
}

} // verus!
