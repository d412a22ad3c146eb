use serverlist_bot::decimal::IntErrorKind;
use serverlist_bot::set_field::{InviteInfo, SetField};
use serverlist_bot::set_flow::{set_step, ServerUpdate, SetAction, SetEvent, SetRequest, SetStage};
use serverlist_bot::vote::{vote_step, GuildInfo, SiteResponse, VoteAction, VoteEvent, VoteRequest, VoteStage};

fn request(field: SetField) -> SetRequest {
    SetRequest { field, guild_id: 77, user_id: 5, username: "bob".to_string() }
}

fn begin(value: &str, perms: Option<u64>) -> SetEvent {
    SetEvent::Begin { in_guild: true, member_permissions: perms, value: value.to_string() }
}

#[test]
fn set_gate_stops_before_any_write() {
    let req = request(SetField::Description);
    let (stage, action) = set_step(&req, SetStage::Start, begin("hi", Some(8)));
    assert!(matches!(action, SetAction::Finish(ref m)
        if m == "You must have ``Manage Server`` or ``Administrator`` permissions to use this command"));
    let (_, action) = set_step(&req, stage, SetEvent::Done);
    assert!(matches!(action, SetAction::Stop));
    let (_, action) = set_step(&req, SetStage::Start, SetEvent::Begin { in_guild: false, member_permissions: Some(32), value: "x".to_string() });
    assert!(matches!(action, SetAction::Finish(ref m) if m == "You must be in a server to use this command"));
}

#[test]
fn set_description_full_run() {
    let req = request(SetField::Description);
    let (stage, action) = set_step(&req, SetStage::Start, begin("see http://x.y", Some(32)));
    assert!(matches!(action, SetAction::Update { guild_id: 77, change: ServerUpdate::Description(ref v) } if v == "see https://x.y"));
    let (stage, action) = set_step(&req, stage, SetEvent::Done);
    match action {
        SetAction::Audit(e) => {
            assert_eq!(e.guild_id, 77);
            assert_eq!(e.user_id, 5);
            assert_eq!(e.username, "bob");
            assert_eq!(e.user_guild_perms, "32");
            assert_eq!(e.field, "Description");
            assert_eq!(e.value, "see https://x.y");
        }
        _ => panic!("expected an audit"),
    }
    let (stage, action) = set_step(&req, stage, SetEvent::Done);
    assert!(matches!(action, SetAction::Finish(ref m)
        if m == "Set Description successfully. Either use /get or check out your server page!"));
    assert!(matches!(stage, SetStage::Finished));
}

#[test]
fn set_unavailable_field_is_still_audited() {
    let req = request(SetField::Vanity);
    let (stage, action) = set_step(&req, SetStage::Start, begin("v", Some(32)));
    assert!(matches!(action, SetAction::Say(ref m)
        if m == "This command is being revamped right now and this option is not currently available!"));
    let (stage, action) = set_step(&req, stage, SetEvent::Done);
    assert!(matches!(action, SetAction::Audit(ref e) if e.field == "Vanity" && e.value == "v"));
    let (_, action) = set_step(&req, stage, SetEvent::Done);
    assert!(matches!(action, SetAction::Finish(ref m) if m.starts_with("Set Vanity successfully")));
}

#[test]
fn set_pastebin_then_long_description() {
    let req = request(SetField::LongDescription);
    let (stage, action) = set_step(&req, SetStage::Start, begin("http://pastebin.com/abc", Some(32)));
    assert!(matches!(action, SetAction::FetchPaste(ref u) if u == "https://pastebin.com/raw/abc"));
    let text = "x".repeat(250);
    let (_, action) = set_step(&req, stage, SetEvent::PasteFetched { status: 200, body: text.clone() });
    assert!(matches!(action, SetAction::Update { change: ServerUpdate::LongDescription(ref v), .. } if *v == text));
    let (stage, _) = set_step(&req, SetStage::Start, begin("pastebin.com/q", Some(32)));
    let (_, action) = set_step(&req, stage, SetEvent::PasteFetched { status: 404, body: String::new() });
    assert!(matches!(action, SetAction::Finish(ref m) if m == "Error: Could not get pastebin due to status code: 404"));
}

#[test]
fn set_invite_code_run() {
    let req = request(SetField::InviteCode);
    let (stage, action) = set_step(&req, SetStage::Start, begin("https://discord.gg/abc", Some(32)));
    assert!(matches!(action, SetAction::FetchBotPermissions));
    let (stage, action) = set_step(&req, stage, SetEvent::Permissions(32));
    assert!(matches!(action, SetAction::FetchInvites));
    let invites = vec![InviteInfo { code: "abc".to_string(), max_age: 0, max_uses: 0, temporary: false }];
    let (stage, action) = set_step(&req, stage, SetEvent::Invites(invites));
    assert!(matches!(action, SetAction::Update { change: ServerUpdate::InviteUrl(ref c), .. } if c == "abc"));
    let (_, action) = set_step(&req, stage, SetEvent::Done);
    assert!(matches!(action, SetAction::Audit(ref e) if e.value == "abc"));
    let (stage, _) = set_step(&req, SetStage::Start, begin("abc", Some(32)));
    let (_, action) = set_step(&req, stage, SetEvent::Permissions(1));
    assert!(matches!(action, SetAction::Finish(ref m) if m.starts_with("The bot must have the `Manage Server`")));
}

#[test]
fn set_invite_channel_run() {
    let req = request(SetField::InviteChannelID);
    let (_, action) = set_step(&req, SetStage::Start, begin("abc", Some(32)));
    assert!(matches!(action, SetAction::Fail(IntErrorKind::InvalidDigit)));
    let (stage, action) = set_step(&req, SetStage::Start, begin("9", Some(32)));
    assert!(matches!(action, SetAction::FetchChannels));
    let (stage, action) = set_step(&req, stage, SetEvent::Channels(vec![3, 9, 4]));
    assert!(matches!(action, SetAction::FetchChannelPermissions(1)));
    let (_, action) = set_step(&req, stage, SetEvent::Permissions(1));
    assert!(matches!(action, SetAction::Update { guild_id: 77, change: ServerUpdate::InviteChannel(9) }));
    let (stage, _) = set_step(&req, SetStage::Start, begin("9", Some(32)));
    let (_, action) = set_step(&req, stage, SetEvent::Channels(vec![3]));
    assert!(matches!(action, SetAction::Finish(ref m) if m == "Channel could not be found on this guild"));
}

#[test]
fn set_unexpected_event_stops() {
    let req = request(SetField::Description);
    let (stage, action) = set_step(&req, SetStage::Start, SetEvent::Done);
    assert!(matches!(action, SetAction::Stop));
    assert!(matches!(stage, SetStage::Finished));
}

#[test]
fn vote_runs() {
    let req = VoteRequest { user_id: 12 };
    let (_, action) = vote_step(&req, VoteStage::Start, VoteEvent::Begin(None));
    assert!(matches!(action, VoteAction::Finish(ref m) if m == "You must be in a server to vote"));
    let (stage, action) = vote_step(&req, VoteStage::Start, VoteEvent::Begin(Some(GuildInfo { id: 34, name: "G".to_string() })));
    assert!(matches!(action, VoteAction::LookupToken));
    let (stage2, action) = vote_step(&req, stage, VoteEvent::Token(Some("tok".to_string())));
    assert!(matches!(action, VoteAction::SendVote { ref url, ref token }
        if url == "https://api.fateslist.xyz/users/12/servers/34/votes?test=false" && token == "tok"));
    let (_, action) = vote_step(&req, stage2, VoteEvent::Response(Some(SiteResponse { status: 200, body: b"{}".to_vec() })));
    assert!(matches!(action, VoteAction::Reply { ref text, ref button }
        if text == "You have successfully voted for G" && button == "vrtoggle-12-34"));
    let (stage, _) = vote_step(&req, VoteStage::Start, VoteEvent::Begin(Some(GuildInfo { id: 34, name: "G".to_string() })));
    let (_, action) = vote_step(&req, stage, VoteEvent::Token(None));
    assert!(matches!(action, VoteAction::Finish(ref m) if m == "You need to login to the site first!"));
    let (stage, _) = vote_step(&req, VoteStage::Start, VoteEvent::Begin(Some(GuildInfo { id: 34, name: "G".to_string() })));
    let (stage, _) = vote_step(&req, stage, VoteEvent::Token(Some("t".to_string())));
    let (_, action) = vote_step(&req, stage, VoteEvent::Response(None));
    assert!(matches!(action, VoteAction::Finish(ref m) if m == "Failed to vote for this server. Please try again later."));
    let (stage, _) = vote_step(&req, VoteStage::Start, VoteEvent::Begin(Some(GuildInfo { id: 34, name: "G".to_string() })));
    let (stage, _) = vote_step(&req, stage, VoteEvent::Token(Some("t".to_string())));
    let (_, action) = vote_step(&req, stage, VoteEvent::Response(Some(SiteResponse { status: 200, body: b"nope".to_vec() })));
    assert!(matches!(action, VoteAction::Fail));
}
