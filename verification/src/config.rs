//! Where the bot's configuration lives and what it holds.
use vstd::prelude::*;
use crate::text::concat2;

verus! {

/// Secrets read from `secrets.json`.
pub struct Secrets {
    pub token_server: String,
}

/// Channels the bot uses.
#[derive(Clone, Copy)]
pub struct KeyChannels {
    /// Channel for vote reminders of members without a channel of their own.
    pub vote_reminder_channel: u64,
}

/// Settings read from `discord.json`.
#[derive(Clone, Copy)]
pub struct KeyData {
    pub channels: KeyChannels,
}

/// The configuration directory under the home directory `home`.
pub fn data_dir(home: &str) -> (s: String)
    ensures
        s@ == home@ + "/FatesList/config/data/"@,
{
    concat2(home, "/FatesList/config/data/")
}

/// The secrets file in the configuration directory.
pub fn secrets_file(dir: &str) -> (s: String)
    ensures
        s@ == dir@ + "secrets.json"@,
{
    concat2(dir, "secrets.json")
}

/// The Discord settings file in the configuration directory.
pub fn discord_file(dir: &str) -> (s: String)
    ensures
        s@ == dir@ + "discord.json"@,
{
    concat2(dir, "discord.json")
}

} // verus!
