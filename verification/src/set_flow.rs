//! The `set` command as a sequence of steps: each step takes what the last
//! request to Discord, the web or the database gave back, and says what to
//! do next. The caller performs the action and feeds its outcome back.
use vstd::prelude::*;
use crate::decimal::{as_signed, signed_bits, nat_text, int_text, IntErrorKind};
use crate::set_field::{SetField, InviteInfo, AuditEntry, FieldPlan, PlanView, set_gate, set_gate_spec, force_https, paste_source, paste_source_spec, paste_outcome, paste_outcome_spec, plan_field, plan_field_spec, bot_invite_permission, bot_invite_permission_spec, check_invite, invite_check_spec, find_channel, channel_key, invite_channel_check, invite_channel_check_spec, audit_entry, set_success_message, set_success_spec, unavailable_message, unavailable_spec, field_name, long_description_code, long_description_type_spec, has_permission, MANAGE_GUILD, occurs_in, is_pastebin_spec, lemma_replace_without_occurrence, law_long_description_code_round_trip, LongDescriptionType};
use crate::text::replace_all;

verus! {

/// Who asked to change which field of which server.
pub struct SetRequest {
    pub field: SetField,
    pub guild_id: u64,
    pub user_id: u64,
    pub username: String,
}

/// Where a `set` command stands. `perms` is the member's permission set,
/// kept for the audit entry.
pub enum SetStage {
    /// Nothing has happened yet.
    Start,
    /// Waiting for the raw text of a pastebin link.
    Paste { perms: u64 },
    /// Waiting for the bot's permissions in the server (invite code).
    BotPermissions { perms: u64, code: String },
    /// Waiting for the server's invites.
    Invites { perms: u64, code: String },
    /// Waiting for the server's channels.
    Channels { perms: u64, id: i64, value: String },
    /// Waiting for the bot's permissions in the channel that was found.
    ChannelPermissions { perms: u64, id: i64, value: String },
    /// Waiting for the field to be written.
    Stored { perms: u64, value: String },
    /// Waiting for the "not available" reply to be sent.
    Announced { perms: u64, value: String },
    /// Waiting for the audit entry to be written.
    Audited,
    /// Over: nothing more is done.
    Finished,
}

/// What the last action gave back.
pub enum SetEvent {
    /// The command was invoked: whether it came from a server, the member's
    /// permissions (`None` when not a member), and the submitted value.
    Begin { in_guild: bool, member_permissions: Option<u64>, value: String },
    /// The paste was fetched: its status, and its text when the status is a success.
    PasteFetched { status: u16, body: String },
    /// A permission set that was asked for.
    Permissions(u64),
    /// The server's invites.
    Invites(Vec<InviteInfo>),
    /// The ids of the server's channels.
    Channels(Vec<u64>),
    /// The last write or reply is done.
    Done,
}

/// A change to the server's listing row.
pub enum ServerUpdate {
    Description(String),
    LongDescription(String),
    LongDescriptionType(i32),
    InviteUrl(String),
    InviteChannel(i64),
}

/// What to do next.
pub enum SetAction {
    /// Reply with this text; the command is over.
    Finish(String),
    /// The command fails with this parse error.
    Fail(IntErrorKind),
    /// Fetch this URL and report `PasteFetched`.
    FetchPaste(String),
    /// Report the bot's permissions in the server.
    FetchBotPermissions,
    /// Report the server's invites.
    FetchInvites,
    /// Report the server's channel ids.
    FetchChannels,
    /// Report the bot's permissions in the channel at this position.
    FetchChannelPermissions(usize),
    /// Write this change to the row of the server `guild_id`, then report `Done`.
    Update { guild_id: i64, change: ServerUpdate },
    /// Reply with this text, then report `Done`.
    Say(String),
    /// Write this audit entry, then report `Done`.
    Audit(AuditEntry),
    /// The event does not fit the stage: nothing more is done.
    Stop,
}

pub enum StageView {
    Start,
    Paste { perms: u64 },
    BotPermissions { perms: u64, code: Seq<char> },
    Invites { perms: u64, code: Seq<char> },
    Channels { perms: u64, id: i64, value: Seq<char> },
    ChannelPermissions { perms: u64, id: i64, value: Seq<char> },
    Stored { perms: u64, value: Seq<char> },
    Announced { perms: u64, value: Seq<char> },
    Audited,
    Finished,
}

pub enum EventView {
    Begin { in_guild: bool, member_permissions: Option<u64>, value: Seq<char> },
    PasteFetched { status: u16, body: Seq<char> },
    Permissions(u64),
    Invites(Seq<InviteInfo>),
    Channels(Seq<u64>),
    Done,
}

pub enum UpdateView {
    Description(Seq<char>),
    LongDescription(Seq<char>),
    LongDescriptionType(i32),
    InviteUrl(Seq<char>),
    InviteChannel(i64),
}

pub struct AuditView {
    pub guild_id: i64,
    pub user_id: i64,
    pub username: Seq<char>,
    pub user_guild_perms: Seq<char>,
    pub field: Seq<char>,
    pub value: Seq<char>,
}

pub enum ActionView {
    Finish(Seq<char>),
    Fail(IntErrorKind),
    FetchPaste(Seq<char>),
    FetchBotPermissions,
    FetchInvites,
    FetchChannels,
    FetchChannelPermissions(int),
    Update { guild_id: i64, change: UpdateView },
    Say(Seq<char>),
    Audit(AuditView),
    Stop,
}

pub open spec fn stage_view(s: SetStage) -> StageView {
    match s {
        SetStage::Start => StageView::Start,
        SetStage::Paste { perms } => StageView::Paste { perms },
        SetStage::BotPermissions { perms, code } => StageView::BotPermissions { perms, code: code@ },
        SetStage::Invites { perms, code } => StageView::Invites { perms, code: code@ },
        SetStage::Channels { perms, id, value } => StageView::Channels { perms, id, value: value@ },
        SetStage::ChannelPermissions { perms, id, value } => StageView::ChannelPermissions {
            perms,
            id,
            value: value@,
        },
        SetStage::Stored { perms, value } => StageView::Stored { perms, value: value@ },
        SetStage::Announced { perms, value } => StageView::Announced { perms, value: value@ },
        SetStage::Audited => StageView::Audited,
        SetStage::Finished => StageView::Finished,
    }
}

pub open spec fn event_view(e: SetEvent) -> EventView {
    match e {
        SetEvent::Begin { in_guild, member_permissions, value } => EventView::Begin {
            in_guild,
            member_permissions,
            value: value@,
        },
        SetEvent::PasteFetched { status, body } => EventView::PasteFetched { status, body: body@ },
        SetEvent::Permissions(p) => EventView::Permissions(p),
        SetEvent::Invites(v) => EventView::Invites(v@),
        SetEvent::Channels(v) => EventView::Channels(v@),
        SetEvent::Done => EventView::Done,
    }
}

pub open spec fn update_view(u: ServerUpdate) -> UpdateView {
    match u {
        ServerUpdate::Description(s) => UpdateView::Description(s@),
        ServerUpdate::LongDescription(s) => UpdateView::LongDescription(s@),
        ServerUpdate::LongDescriptionType(c) => UpdateView::LongDescriptionType(c),
        ServerUpdate::InviteUrl(s) => UpdateView::InviteUrl(s@),
        ServerUpdate::InviteChannel(i) => UpdateView::InviteChannel(i),
    }
}

pub open spec fn audit_view(a: AuditEntry) -> AuditView {
    AuditView {
        guild_id: a.guild_id,
        user_id: a.user_id,
        username: a.username@,
        user_guild_perms: a.user_guild_perms@,
        field: a.field@,
        value: a.value@,
    }
}

pub open spec fn action_view(a: SetAction) -> ActionView {
    match a {
        SetAction::Finish(s) => ActionView::Finish(s@),
        SetAction::Fail(e) => ActionView::Fail(e),
        SetAction::FetchPaste(s) => ActionView::FetchPaste(s@),
        SetAction::FetchBotPermissions => ActionView::FetchBotPermissions,
        SetAction::FetchInvites => ActionView::FetchInvites,
        SetAction::FetchChannels => ActionView::FetchChannels,
        SetAction::FetchChannelPermissions(k) => ActionView::FetchChannelPermissions(k as int),
        SetAction::Update { guild_id, change } => ActionView::Update { guild_id, change: update_view(change) },
        SetAction::Say(s) => ActionView::Say(s@),
        SetAction::Audit(e) => ActionView::Audit(audit_view(e)),
        SetAction::Stop => ActionView::Stop,
    }
}

/// The server row id that `set` writes to.
pub open spec fn row_id(req: SetRequest) -> i64 {
    signed_bits(req.guild_id as int) as i64
}

/// The audit entry of a change.
pub open spec fn audit_spec(req: SetRequest, perms: u64, value: Seq<char>) -> AuditView {
    AuditView {
        guild_id: row_id(req),
        user_id: signed_bits(req.user_id as int) as i64,
        username: req.username@,
        user_guild_perms: nat_text(perms as nat),
        field: field_name(req.field),
        value,
    }
}

/// What happens once the value is final: the field's rule decides.
pub open spec fn apply_plan_spec(req: SetRequest, perms: u64, value: Seq<char>) -> (StageView, ActionView) {
    match plan_field_spec(req.field, value) {
        PlanView::Reject(m) => (StageView::Finished, ActionView::Finish(m)),
        PlanView::UpdateDescription(v) => (
            StageView::Stored { perms, value: v },
            ActionView::Update { guild_id: row_id(req), change: UpdateView::Description(v) },
        ),
        PlanView::UpdateLongDescription(v) => (
            StageView::Stored { perms, value: v },
            ActionView::Update { guild_id: row_id(req), change: UpdateView::LongDescription(v) },
        ),
        PlanView::UpdateLongDescriptionType(t) => (
            StageView::Stored { perms, value },
            ActionView::Update {
                guild_id: row_id(req),
                change: UpdateView::LongDescriptionType(long_description_code(t)),
            },
        ),
        PlanView::CheckInvite(code) => (
            StageView::BotPermissions { perms, code },
            ActionView::FetchBotPermissions,
        ),
        PlanView::CheckInviteChannel(id) => (
            StageView::Channels { perms, id, value },
            ActionView::FetchChannels,
        ),
        PlanView::BadChannelId(e) => (StageView::Finished, ActionView::Fail(e)),
        PlanView::Unavailable => (
            StageView::Announced { perms, value },
            ActionView::Say(unavailable_spec()),
        ),
    }
}

pub open spec fn finished() -> (StageView, ActionView) {
    (StageView::Finished, ActionView::Stop)
}

pub open spec fn begin_spec(req: SetRequest, event: EventView) -> (StageView, ActionView) {
    match event {
        EventView::Begin { in_guild, member_permissions, value } => {
            match set_gate_spec(in_guild, member_permissions) {
                Some(m) => (StageView::Finished, ActionView::Finish(m)),
                None => {
                    let perms = member_permissions->0;
                    let v = replace_all(value, "http://"@, "https://"@);
                    match paste_source_spec(v) {
                        Some(url) => (StageView::Paste { perms }, ActionView::FetchPaste(url)),
                        None => apply_plan_spec(req, perms, v),
                    }
                },
            }
        },
        _ => finished(),
    }
}

pub open spec fn paste_spec(req: SetRequest, perms: u64, event: EventView) -> (StageView, ActionView) {
    match event {
        EventView::PasteFetched { status, body } => match paste_outcome_spec(status, body) {
            Ok(text) => apply_plan_spec(req, perms, text),
            Err(m) => (StageView::Finished, ActionView::Finish(m)),
        },
        _ => finished(),
    }
}

pub open spec fn bot_permissions_spec(perms: u64, code: Seq<char>, event: EventView) -> (StageView, ActionView) {
    match event {
        EventView::Permissions(bits) => match bot_invite_permission_spec(bits) {
            Some(m) => (StageView::Finished, ActionView::Finish(m)),
            None => (StageView::Invites { perms, code }, ActionView::FetchInvites),
        },
        _ => finished(),
    }
}

pub open spec fn invites_spec(req: SetRequest, perms: u64, code: Seq<char>, event: EventView) -> (StageView, ActionView) {
    match event {
        EventView::Invites(list) => match invite_check_spec(list, code) {
            Err(m) => (StageView::Finished, ActionView::Finish(m)),
            Ok(c) => (
                StageView::Stored { perms, value: code },
                ActionView::Update { guild_id: row_id(req), change: UpdateView::InviteUrl(c) },
            ),
        },
        _ => finished(),
    }
}

/// The last position of `ids` holding the channel `id`.
pub open spec fn last_position(ids: Seq<u64>, id: i64) -> int {
    choose|k: int|
        0 <= k < ids.len() && ids[k] == channel_key(id) && forall|j: int|
            k < j < ids.len() ==> ids[j] != channel_key(id)
}

pub open spec fn channels_spec(perms: u64, id: i64, value: Seq<char>, event: EventView) -> (StageView, ActionView) {
    match event {
        EventView::Channels(ids) => if exists|j: int| 0 <= j < ids.len() && ids[j] == channel_key(id) {
            (
                StageView::ChannelPermissions { perms, id, value },
                ActionView::FetchChannelPermissions(last_position(ids, id)),
            )
        } else {
            (StageView::Finished, ActionView::Finish(invite_channel_check_spec(false, 0)->0))
        },
        _ => finished(),
    }
}

pub open spec fn channel_permissions_spec(req: SetRequest, perms: u64, id: i64, value: Seq<char>, event: EventView) -> (StageView, ActionView) {
    match event {
        EventView::Permissions(bits) => match invite_channel_check_spec(true, bits) {
            Some(m) => (StageView::Finished, ActionView::Finish(m)),
            None => (
                StageView::Stored { perms, value },
                ActionView::Update { guild_id: row_id(req), change: UpdateView::InviteChannel(id) },
            ),
        },
        _ => finished(),
    }
}

pub open spec fn audit_step_spec(req: SetRequest, perms: u64, value: Seq<char>, event: EventView) -> (StageView, ActionView) {
    match event {
        EventView::Done => (StageView::Audited, ActionView::Audit(audit_spec(req, perms, value))),
        _ => finished(),
    }
}

/// One step of `set`: the stage and the event give the next stage and
/// action; an event that does not fit the stage ends the command.
pub open spec fn set_step_spec(req: SetRequest, stage: StageView, event: EventView) -> (StageView, ActionView) {
    match stage {
        StageView::Start => begin_spec(req, event),
        StageView::Paste { perms } => paste_spec(req, perms, event),
        StageView::BotPermissions { perms, code } => bot_permissions_spec(perms, code, event),
        StageView::Invites { perms, code } => invites_spec(req, perms, code, event),
        StageView::Channels { perms, id, value } => channels_spec(perms, id, value, event),
        StageView::ChannelPermissions { perms, id, value } => channel_permissions_spec(req, perms, id, value, event),
        StageView::Stored { perms, value } => audit_step_spec(req, perms, value, event),
        StageView::Announced { perms, value } => audit_step_spec(req, perms, value, event),
        StageView::Audited => match event {
            EventView::Done => (StageView::Finished, ActionView::Finish(set_success_spec(req.field))),
            _ => finished(),
        },
        StageView::Finished => finished(),
    }
}

fn apply_plan(req: &SetRequest, perms: u64, value: String) -> (r: (SetStage, SetAction))
    ensures
        (stage_view(r.0), action_view(r.1)) == apply_plan_spec(*req, perms, value@),
{
    let row = as_signed(req.guild_id);
    match plan_field(req.field, value.clone()) {
        FieldPlan::Reject(m) => (SetStage::Finished, SetAction::Finish(m)),
        FieldPlan::UpdateDescription(v) => {
            let stored = v.clone();
            (
                SetStage::Stored { perms, value: stored },
                SetAction::Update { guild_id: row, change: ServerUpdate::Description(v) },
            )
        },
        FieldPlan::UpdateLongDescription(v) => {
            let stored = v.clone();
            (
                SetStage::Stored { perms, value: stored },
                SetAction::Update { guild_id: row, change: ServerUpdate::LongDescription(v) },
            )
        },
        FieldPlan::UpdateLongDescriptionType(t) => (
            SetStage::Stored { perms, value },
            SetAction::Update { guild_id: row, change: ServerUpdate::LongDescriptionType(t.code()) },
        ),
        FieldPlan::CheckInvite(code) => (
            SetStage::BotPermissions { perms, code },
            SetAction::FetchBotPermissions,
        ),
        FieldPlan::CheckInviteChannel(id) => (
            SetStage::Channels { perms, id, value },
            SetAction::FetchChannels,
        ),
        FieldPlan::BadChannelId(e) => (SetStage::Finished, SetAction::Fail(e)),
        FieldPlan::Unavailable => (SetStage::Announced { perms, value }, SetAction::Say(unavailable_message())),
    }
}

fn begin(req: &SetRequest, event: SetEvent) -> (r: (SetStage, SetAction))
    ensures
        (stage_view(r.0), action_view(r.1)) == begin_spec(*req, event_view(event)),
{
    match event {
        SetEvent::Begin { in_guild, member_permissions, value } => {
            match set_gate(in_guild, member_permissions) {
                Some(m) => (SetStage::Finished, SetAction::Finish(m)),
                None => {
                    let perms = match member_permissions {
                        Some(p) => p,
                        None => 0,
                    };
                    let v = force_https(value.as_str());
                    match paste_source(v.as_str()) {
                        Some(url) => (SetStage::Paste { perms }, SetAction::FetchPaste(url)),
                        None => apply_plan(req, perms, v),
                    }
                },
            }
        },
        _ => (SetStage::Finished, SetAction::Stop),
    }
}

fn paste_step(req: &SetRequest, perms: u64, event: SetEvent) -> (r: (SetStage, SetAction))
    ensures
        (stage_view(r.0), action_view(r.1)) == paste_spec(*req, perms, event_view(event)),
{
    match event {
        SetEvent::PasteFetched { status, body } => match paste_outcome(status, body) {
            Ok(text) => apply_plan(req, perms, text),
            Err(m) => (SetStage::Finished, SetAction::Finish(m)),
        },
        _ => (SetStage::Finished, SetAction::Stop),
    }
}

fn bot_permissions_step(perms: u64, code: String, event: SetEvent) -> (r: (SetStage, SetAction))
    ensures
        (stage_view(r.0), action_view(r.1)) == bot_permissions_spec(perms, code@, event_view(event)),
{
    match event {
        SetEvent::Permissions(bits) => match bot_invite_permission(bits) {
            Some(m) => (SetStage::Finished, SetAction::Finish(m)),
            None => (SetStage::Invites { perms, code }, SetAction::FetchInvites),
        },
        _ => (SetStage::Finished, SetAction::Stop),
    }
}

fn invites_step(req: &SetRequest, perms: u64, code: String, event: SetEvent) -> (r: (SetStage, SetAction))
    ensures
        (stage_view(r.0), action_view(r.1)) == invites_spec(*req, perms, code@, event_view(event)),
{
    match event {
        SetEvent::Invites(list) => match check_invite(&list, code.as_str()) {
            Err(m) => (SetStage::Finished, SetAction::Finish(m)),
            Ok(c) => (
                SetStage::Stored { perms, value: code },
                SetAction::Update { guild_id: as_signed(req.guild_id), change: ServerUpdate::InviteUrl(c) },
            ),
        },
        _ => (SetStage::Finished, SetAction::Stop),
    }
}

fn channels_step(perms: u64, id: i64, value: String, event: SetEvent) -> (r: (SetStage, SetAction))
    ensures
        (stage_view(r.0), action_view(r.1)) == channels_spec(perms, id, value@, event_view(event)),
{
    match event {
        SetEvent::Channels(ids) => match find_channel(&ids, id) {
            Some(k) => {
                proof {
                    assert(ids@[k as int] == channel_key(id));
                    let c = last_position(ids@, id);
                    assert(0 <= k < ids@.len() && ids@[k as int] == channel_key(id) && forall|j: int|
                        k < j < ids@.len() ==> ids@[j] != channel_key(id));
                    if c < k {
                    } else if c > k {
                        assert(ids@[c] != channel_key(id));
                    }
                }
                (SetStage::ChannelPermissions { perms, id, value }, SetAction::FetchChannelPermissions(k))
            },
            None => {
                let m = invite_channel_check(false, 0);
                (SetStage::Finished, SetAction::Finish(m.unwrap()))
            },
        },
        _ => (SetStage::Finished, SetAction::Stop),
    }
}

fn channel_permissions_step(req: &SetRequest, perms: u64, id: i64, value: String, event: SetEvent) -> (r: (
    SetStage,
    SetAction,
))
    ensures
        (stage_view(r.0), action_view(r.1)) == channel_permissions_spec(*req, perms, id, value@, event_view(event)),
{
    match event {
        SetEvent::Permissions(bits) => match invite_channel_check(true, bits) {
            Some(m) => (SetStage::Finished, SetAction::Finish(m)),
            None => (
                SetStage::Stored { perms, value },
                SetAction::Update { guild_id: as_signed(req.guild_id), change: ServerUpdate::InviteChannel(id) },
            ),
        },
        _ => (SetStage::Finished, SetAction::Stop),
    }
}

fn audit_step(req: &SetRequest, perms: u64, value: String, event: SetEvent) -> (r: (SetStage, SetAction))
    ensures
        (stage_view(r.0), action_view(r.1)) == audit_step_spec(*req, perms, value@, event_view(event)),
{
    match event {
        SetEvent::Done => {
            let e = audit_entry(req.guild_id, req.user_id, req.username.clone(), perms, req.field, value);
            (SetStage::Audited, SetAction::Audit(e))
        },
        _ => (SetStage::Finished, SetAction::Stop),
    }
}

/// One step of `set`.
pub fn set_step(req: &SetRequest, stage: SetStage, event: SetEvent) -> (r: (SetStage, SetAction))
    ensures
        (stage_view(r.0), action_view(r.1)) == set_step_spec(*req, stage_view(stage), event_view(event)),
{
    match stage {
        SetStage::Start => begin(req, event),
        SetStage::Paste { perms } => paste_step(req, perms, event),
        SetStage::BotPermissions { perms, code } => bot_permissions_step(perms, code, event),
        SetStage::Invites { perms, code } => invites_step(req, perms, code, event),
        SetStage::Channels { perms, id, value } => channels_step(perms, id, value, event),
        SetStage::ChannelPermissions { perms, id, value } => channel_permissions_step(req, perms, id, value, event),
        SetStage::Stored { perms, value } => audit_step(req, perms, value, event),
        SetStage::Announced { perms, value } => audit_step(req, perms, value, event),
        SetStage::Audited => match event {
            SetEvent::Done => (SetStage::Finished, SetAction::Finish(set_success_message(req.field))),
            _ => (SetStage::Finished, SetAction::Stop),
        },
        SetStage::Finished => (SetStage::Finished, SetAction::Stop),
    }
}

/// The actions of a run of `set` from `stage` on the events `events`.
pub open spec fn set_run(req: SetRequest, stage: StageView, events: Seq<EventView>) -> Seq<ActionView>
    decreases events.len(),
{
    if events.len() == 0 {
        Seq::empty()
    } else {
        let (next, action) = set_step_spec(req, stage, events[0]);
        seq![action] + set_run(req, next, events.drop_first())
    }
}

/// The action writes to the database.
pub open spec fn is_write(a: ActionView) -> bool {
    a is Update || a is Audit
}

proof fn lemma_finished_does_nothing(req: SetRequest, events: Seq<EventView>)
    ensures
        forall|k: int| 0 <= k < events.len() ==> #[trigger] set_run(req, StageView::Finished, events)[k]
            == ActionView::Stop,
        set_run(req, StageView::Finished, events).len() == events.len(),
    decreases events.len(),
{
    if events.len() > 0 {
        lemma_finished_does_nothing(req, events.drop_first());
        let r = set_run(req, StageView::Finished, events);
        let rest = set_run(req, StageView::Finished, events.drop_first());
        assert(r =~= seq![ActionView::Stop] + rest);
        assert forall|k: int| 0 <= k < events.len() implies #[trigger] r[k] == ActionView::Stop by {
            if k > 0 {
                assert(r[k] == rest[k - 1]);
            }
        }
    }
}

/// Nothing is written unless the run began with the command, from a
/// server, by a member who holds "Manage Guild".
pub proof fn law_no_write_without_gate(req: SetRequest, events: Seq<EventView>, k: int)
    requires
        0 <= k < set_run(req, StageView::Start, events).len(),
        is_write(set_run(req, StageView::Start, events)[k]),
    ensures
        events.len() > 0,
        events[0] matches EventView::Begin { in_guild, member_permissions, .. } && set_gate_spec(
            in_guild,
            member_permissions,
        ) is None,
{
    assert(events.len() > 0);
    let (next, first) = set_step_spec(req, StageView::Start, events[0]);
    let rest = events.drop_first();
    assert(set_run(req, StageView::Start, events) =~= seq![first] + set_run(req, next, rest));
    match events[0] {
        EventView::Begin { in_guild, member_permissions, value } => {
            if set_gate_spec(in_guild, member_permissions) is Some {
                lemma_finished_does_nothing(req, rest);
                if k > 0 {
                    assert(set_run(req, next, rest)[k - 1] == ActionView::Stop);
                }
            }
        },
        _ => {
            lemma_finished_does_nothing(req, rest);
            if k > 0 {
                assert(set_run(req, next, rest)[k - 1] == ActionView::Stop);
            }
        },
    }
}

/// Every write of a step goes to the row of the server the command came from.
pub proof fn law_writes_stay_in_own_server(req: SetRequest, stage: StageView, event: EventView)
    ensures
        ({
            let a = set_step_spec(req, stage, event).1;
            &&& a matches ActionView::Update { guild_id, .. } ==> guild_id == row_id(req)
            &&& a matches ActionView::Audit(e) ==> e.guild_id == row_id(req)
        }),
{
}

/// Every write of a whole run, from any stage, goes to the row of the server
/// the command came from.
pub proof fn law_run_writes_stay_in_own_server(req: SetRequest, stage: StageView, events: Seq<EventView>)
    ensures
        forall|k: int| #![trigger set_run(req, stage, events)[k]]
            0 <= k < set_run(req, stage, events).len() ==> {
                &&& set_run(req, stage, events)[k] matches ActionView::Update { guild_id, .. } ==> guild_id
                    == row_id(req)
                &&& set_run(req, stage, events)[k] matches ActionView::Audit(e) ==> e.guild_id == row_id(req)
            },
    decreases events.len(),
{
    if events.len() > 0 {
        let (next, first) = set_step_spec(req, stage, events[0]);
        let rest = events.drop_first();
        law_writes_stay_in_own_server(req, stage, events[0]);
        law_run_writes_stay_in_own_server(req, next, rest);
        let run = set_run(req, stage, events);
        assert(run =~= seq![first] + set_run(req, next, rest));
        assert forall|k: int| #![trigger run[k]] 0 <= k < run.len() implies {
            &&& run[k] matches ActionView::Update { guild_id, .. } ==> guild_id == row_id(req)
            &&& run[k] matches ActionView::Audit(e) ==> e.guild_id == row_id(req)
        } by {
            if k > 0 {
                assert(run[k] == set_run(req, next, rest)[k - 1]);
            }
        }
    }
}

/// Once the value of a long description type is final, the code that is
/// written names, read back as text, the same type as the value: `html` and
/// `0` are stored as 0, `markdown` and `1` as 1, in the command's own server.
pub proof fn law_long_description_type_written_as_named(req: SetRequest, perms: u64, value: Seq<char>)
    requires
        req.field == SetField::LongDescriptionType,
        long_description_type_spec(value) is Some,
    ensures
        ({
            let action = apply_plan_spec(req, perms, value).1;
            &&& action matches ActionView::Update { guild_id, change: UpdateView::LongDescriptionType(c) }
            &&& guild_id == row_id(req)
            &&& (value == "html"@ || value == "0"@) ==> c == 0
            &&& (value == "markdown"@ || value == "1"@) ==> c == 1
            &&& long_description_type_spec(int_text(c as int)) == long_description_type_spec(value)
        }),
{
    let t = long_description_type_spec(value)->0;
    law_long_description_code_round_trip(t);
    reveal_strlit("html");
    reveal_strlit("0");
    reveal_strlit("markdown");
    reveal_strlit("1");
    assert("markdown"@ != "html"@ && "markdown"@ != "0"@) by {
        assert("markdown"@.len() != "html"@.len());
        assert("markdown"@.len() != "0"@.len());
    }
    assert("1"@ != "html"@ && "1"@ != "0"@) by {
        assert("1"@.len() != "html"@.len());
        assert("1"@[0] != "0"@[0]);
    }
    if value == "html"@ || value == "0"@ {
        assert(t == LongDescriptionType::Html);
    }
    if value == "markdown"@ || value == "1"@ {
        assert(t == LongDescriptionType::MarkdownServerSide);
    }
}

/// A member with "Manage Guild" who names a long description type directly
/// (no `http://`, no pastebin link) gets that type written, as its code, to
/// the command's own server.
pub proof fn law_set_long_description_type(req: SetRequest, perms: u64, value: Seq<char>)
    requires
        req.field == SetField::LongDescriptionType,
        has_permission(perms, MANAGE_GUILD),
        !occurs_in(value, "http://"@),
        !is_pastebin_spec(value),
        long_description_type_spec(value) is Some,
    ensures
        ({
            let action = set_step_spec(
                req,
                StageView::Start,
                EventView::Begin { in_guild: true, member_permissions: Some(perms), value },
            ).1;
            &&& action matches ActionView::Update { guild_id, change: UpdateView::LongDescriptionType(c) }
            &&& guild_id == row_id(req)
            &&& (value == "html"@ || value == "0"@) ==> c == 0
            &&& (value == "markdown"@ || value == "1"@) ==> c == 1
            &&& long_description_type_spec(int_text(c as int)) == long_description_type_spec(value)
        }),
{
    lemma_replace_without_occurrence(value, "http://"@, "https://"@);
    law_long_description_type_written_as_named(req, perms, value);
}

/// The audit entry records who changed what: the server and member ids as
/// stored, the member's permission bits in decimal (reading back as those
/// bits when they fit in an `i64`), the field's name and the final value.
pub proof fn law_audit_records_the_change(req: SetRequest, perms: u64, value: Seq<char>)
    ensures
        audit_spec(req, perms, value).guild_id == row_id(req),
        audit_spec(req, perms, value).username == req.username@,
        audit_spec(req, perms, value).field == field_name(req.field),
        audit_spec(req, perms, value).value == value,
        perms <= i64::MAX ==> crate::decimal::parse_i64_spec(audit_spec(req, perms, value).user_guild_perms)
            == Ok::<int, IntErrorKind>(perms as int),
{
    if perms <= i64::MAX {
        crate::decimal::law_u64_text_round_trip(perms);
    }
}

/// A description written straight from the command (not fetched from a
/// pastebin link) never holds `http://`: every such link was made HTTPS.
pub proof fn law_written_description_is_https(req: SetRequest, in_guild: bool, member_permissions: Option<u64>, value: Seq<char>)
    requires
        req.field == SetField::Description,
    ensures
        set_step_spec(
            req,
            StageView::Start,
            EventView::Begin { in_guild, member_permissions, value },
        ).1 matches ActionView::Update { change: UpdateView::Description(v), .. } ==> !occurs_in(
            v,
            "http://"@,
        ) && v == replace_all(value, "http://"@, "https://"@),
{
    crate::set_field::law_force_https_is_complete(value);
}

} // verus!
