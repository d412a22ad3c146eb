use serverlist_bot::config::{data_dir, discord_file, secrets_file, KeyChannels, KeyData, Secrets};
use serverlist_bot::info::{about_message, account_age_message, command_error_message, commit_text};
use serverlist_bot::set_field::{
    audit_entry, bot_invite_permission, check_invite, find_channel, force_https, invite_channel_check,
    invite_code, paste_outcome, paste_source, parse_long_description_type, permission_granted, plan_field,
    set_gate, set_success_message, unavailable_message, FieldPlan, InviteInfo, LongDescriptionType, SetField,
    CREATE_INSTANT_INVITE, MANAGE_GUILD,
};
use serverlist_bot::decimal::IntErrorKind;
use serverlist_bot::vote::{
    login_required_message, not_in_server_message, toggle_id, vote_failed_message, vote_reply, vote_response,
    vote_url,
};

#[test]
fn gate_of_set() {
    assert_eq!(set_gate(false, Some(32)), Some("You must be in a server to use this command".to_string()));
    assert_eq!(set_gate(true, None), Some("You must be in a server to use this command".to_string()));
    assert_eq!(
        set_gate(true, Some(8)),
        Some("You must have ``Manage Server`` or ``Administrator`` permissions to use this command".to_string())
    );
    assert_eq!(set_gate(true, Some(32 | 1)), None);
    assert!(permission_granted(MANAGE_GUILD, MANAGE_GUILD));
    assert!(!permission_granted(CREATE_INSTANT_INVITE, MANAGE_GUILD));
}

#[test]
fn https_is_forced() {
    assert_eq!(force_https("http://a.com and http://b"), "https://a.com and https://b");
    assert_eq!(force_https("https://x"), "https://x");
    assert_eq!(force_https("hhttp://x"), "hhttps://x");
    let once = force_https("http://http://");
    assert_eq!(once, "https://https://");
    assert_eq!(force_https(&once), once);
    assert_eq!(force_https("nothing"), "nothing");
    assert_eq!(force_https(""), "");
}

#[test]
fn pastebin_links() {
    assert_eq!(paste_source("https://pastebin.com/abc"), Some("https://pastebin.com/raw/abc".to_string()));
    assert_eq!(paste_source("pastebin.com/abc"), Some("pastebin.com/raw/abc".to_string()));
    assert_eq!(paste_source("https://www.pastebin.com/abc"), Some("https://www.pastebin.com/raw/abc".to_string()));
    assert_eq!(paste_source("pastebin.comx"), Some("pastebin.comx".to_string()));
    assert_eq!(paste_source("https://example.com/pastebin.com/x"), None);
    assert_eq!(
        paste_source("https://pastebin.com/pastebin.com/x"),
        Some("https://pastebin.com/raw/pastebin.com/x".to_string())
    );
}

#[test]
fn paste_fetch_outcomes() {
    assert_eq!(paste_outcome(200, "body".to_string()), Ok("body".to_string()));
    assert_eq!(paste_outcome(299, "b".to_string()), Ok("b".to_string()));
    assert_eq!(
        paste_outcome(404, "x".to_string()),
        Err("Error: Could not get pastebin due to status code: 404".to_string())
    );
    assert_eq!(
        paste_outcome(302, "x".to_string()),
        Err("Error: Could not get pastebin due to status code: 302".to_string())
    );
}

#[test]
fn description_lengths_count_bytes() {
    let short = "a".repeat(200);
    assert!(matches!(plan_field(SetField::Description, short.clone()), FieldPlan::UpdateDescription(v) if v == short));
    let long = "a".repeat(201);
    assert!(matches!(plan_field(SetField::Description, long),
        FieldPlan::Reject(m) if m == "Description must be less than 200 characters"));
    // 100 characters of two bytes each: 200 bytes.
    let wide = "é".repeat(100);
    assert!(matches!(plan_field(SetField::LongDescription, wide.clone()), FieldPlan::UpdateLongDescription(v) if v == wide));
    let small = "é".repeat(99);
    assert!(matches!(plan_field(SetField::LongDescription, small), FieldPlan::Reject(m)
        if m == "Long description must be at least 200 characters.\n\nThis is required in order to create a optimal user experience for your users!\n\nHINT: Pastebin links are supported too!"));
    let wide_desc = "é".repeat(101);
    assert!(matches!(plan_field(SetField::Description, wide_desc), FieldPlan::Reject(_)));
}

#[test]
fn long_description_types() {
    assert_eq!(parse_long_description_type("html"), Some(LongDescriptionType::Html));
    assert_eq!(parse_long_description_type("0"), Some(LongDescriptionType::Html));
    assert_eq!(parse_long_description_type("markdown"), Some(LongDescriptionType::MarkdownServerSide));
    assert_eq!(parse_long_description_type("1"), Some(LongDescriptionType::MarkdownServerSide));
    assert_eq!(parse_long_description_type("HTML"), None);
    assert_eq!(LongDescriptionType::Html.code(), 0);
    assert_eq!(LongDescriptionType::MarkdownServerSide.code(), 1);
    assert_eq!(LongDescriptionType::default(), LongDescriptionType::MarkdownServerSide);
    for t in [LongDescriptionType::Html, LongDescriptionType::MarkdownServerSide] {
        assert_eq!(parse_long_description_type(&t.code().to_string()), Some(t));
    }
    assert!(matches!(plan_field(SetField::LongDescriptionType, "2".to_string()), FieldPlan::Reject(m)
        if m == "Long description type must be either `html` (`0`) or `markdown` (`1`)"));
    assert!(matches!(plan_field(SetField::LongDescriptionType, "markdown".to_string()),
        FieldPlan::UpdateLongDescriptionType(LongDescriptionType::MarkdownServerSide)));
}

#[test]
fn other_fields() {
    assert!(matches!(plan_field(SetField::InviteChannelID, "123".to_string()), FieldPlan::CheckInviteChannel(123)));
    assert!(matches!(plan_field(SetField::InviteChannelID, "12x".to_string()),
        FieldPlan::BadChannelId(IntErrorKind::InvalidDigit)));
    assert!(matches!(plan_field(SetField::InviteCode, "https://discord.gg/abc".to_string()),
        FieldPlan::CheckInvite(c) if c == "abc"));
    assert!(matches!(plan_field(SetField::Vanity, "x".to_string()), FieldPlan::Unavailable));
    assert!(matches!(plan_field(SetField::WhitelistForm, "x".to_string()), FieldPlan::Unavailable));
    assert_eq!(unavailable_message(), "This command is being revamped right now and this option is not currently available!");
}

#[test]
fn invite_codes() {
    assert_eq!(invite_code("https://discord.gg/abc"), "abc");
    assert_eq!(invite_code("https://discord.com/invite/xyz"), "xyz");
    assert_eq!(invite_code("plain"), "plain");
    assert_eq!(invite_code("https://discord.gg/https://discord.com/invite/q"), "q");
}

fn invite(code: &str, max_age: u32, max_uses: u8, temporary: bool) -> InviteInfo {
    InviteInfo { code: code.to_string(), max_age, max_uses, temporary }
}

#[test]
fn invite_checks() {
    let invites = vec![invite("a", 0, 0, false), invite("b", 60, 0, false), invite("c", 0, 5, false), invite("d", 0, 0, true), invite("a", 60, 0, false)];
    assert_eq!(check_invite(&invites, "a"), Ok("a".to_string()));
    assert_eq!(check_invite(&invites, "z"), Err("Invite code could not be found on this guild".to_string()));
    assert_eq!(check_invite(&invites, "b"), Err("Invite code must be permanent/unlimited time. \n                \nThis is required to provide our users with the optimal experience and not tons of broken links.".to_string()));
    assert_eq!(check_invite(&invites, "c"), Err("Invite code must be unlimited use. \n                \nThis is required to provide our users with the optimal experience and not tons of broken links.".to_string()));
    assert_eq!(check_invite(&invites, "d"), Err("Invite code must not be temporary. \n                \nThis is required to provide our users with the optimal experience and not tons of broken links.".to_string()));
    assert!(bot_invite_permission(32).is_none());
    assert!(bot_invite_permission(8).unwrap().starts_with("The bot must have the `Manage Server` permission"));
}

#[test]
fn invite_channels() {
    let ids = vec![5u64, 7, 5, 18446744073709551615];
    assert_eq!(find_channel(&ids, 5), Some(2));
    assert_eq!(find_channel(&ids, 6), None);
    assert_eq!(find_channel(&ids, -1), Some(3));
    assert_eq!(invite_channel_check(false, 1), Some("Channel could not be found on this guild".to_string()));
    assert_eq!(invite_channel_check(true, 1), None);
    assert_eq!(invite_channel_check(true, 32), Some("The bot must have the `Create Instant Invite` permission to set invite channel.".to_string()));
}

#[test]
fn audit_and_success() {
    let e = audit_entry(18446744073709551615, 42, "bob".to_string(), 40, SetField::WebhookHMACOnly, "v".to_string());
    assert_eq!(e.guild_id, -1);
    assert_eq!(e.user_id, 42);
    assert_eq!(e.username, "bob");
    assert_eq!(e.user_guild_perms, "40");
    assert_eq!(e.field, "WebhookHMACOnly");
    assert_eq!(e.value, "v");
    assert_eq!(set_success_message(SetField::Description), "Set Description successfully. Either use /get or check out your server page!");
    assert_eq!(SetField::WhitlistOnly.name(), format!("{:?}", SetField::WhitlistOnly));
    assert_eq!(SetField::InviteChannelID.name(), "InviteChannelID");
}

#[test]
fn vote_texts() {
    assert_eq!(not_in_server_message(), "You must be in a server to vote");
    assert_eq!(login_required_message(), "You need to login to the site first!");
    assert_eq!(vote_failed_message(), "Failed to vote for this server. Please try again later.");
    assert_eq!(vote_url(12, 34), "https://api.fateslist.xyz/users/12/servers/34/votes?test=false");
    assert_eq!(toggle_id(12, 34), "vrtoggle-12-34");
    assert_eq!(vote_reply(200, "G", None), "You have successfully voted for G");
    assert_eq!(vote_reply(400, "G", Some("slow".to_string())), "**Error when voting for G:** slow");
    assert_eq!(vote_reply(201, "G", None), "**Error when voting for G:** Unknown error");
}

#[test]
fn vote_responses_read_json() {
    assert_eq!(vote_response(200, "G", b"{}"), Some("You have successfully voted for G".to_string()));
    assert_eq!(vote_response(429, "G", br#"{"reason": "Too soon"}"#), Some("**Error when voting for G:** Too soon".to_string()));
    assert_eq!(vote_response(429, "G", br#"{"reason": 5}"#), Some("**Error when voting for G:** Unknown error".to_string()));
    assert_eq!(vote_response(429, "G", b"[1, 2]"), Some("**Error when voting for G:** Unknown error".to_string()));
    assert_eq!(vote_response(200, "G", b"not json"), None);
    assert_eq!(vote_response(200, "G", b""), None);
}

#[test]
fn info_replies() {
    assert_eq!(commit_text(None), "Unknown");
    assert_eq!(commit_text(Some(b"abc123\n".to_vec())), "abc123\n");
    assert_eq!(commit_text(Some(vec![0xff, 0xfe])), "Unknown (utf8 parse failure)");
    assert_eq!(about_message("abc"), "Server Listing v0.1.0\n\n**Commit Hash:** abc");
    assert_eq!(account_age_message("bob", "2020-01-01"), "bob's account was created at 2020-01-01");
    assert_eq!(command_error_message("Boom"), "There was an error running this command: Boom");
}

#[test]
fn config_paths() {
    let dir = data_dir("/home/u");
    assert_eq!(dir, "/home/u/FatesList/config/data/");
    assert_eq!(secrets_file(&dir), "/home/u/FatesList/config/data/secrets.json");
    assert_eq!(discord_file(&dir), "/home/u/FatesList/config/data/discord.json");
    let s = Secrets { token_server: "t".to_string() };
    assert_eq!(s.token_server, "t");
    let k = KeyData { channels: KeyChannels { vote_reminder_channel: 9 } };
    assert_eq!(k.channels.vote_reminder_channel, 9);
}
