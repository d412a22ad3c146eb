//! The `set` command: which member may use it, how the submitted value is
//! cleaned up (forced HTTPS, pastebin links), which rule each field applies,
//! the invite and invite-channel checks, and the audit record.
use vstd::prelude::*;
use crate::decimal::{int_text, as_signed, as_unsigned, nat_text, signed_bits, unsigned_bits, u64_text, parse_i64, parsed_i64, IntErrorKind};
use crate::text::{byte_len, has_prefix, replace_all, replace_first, concat2, concat3, starts_with, text_eq, utf8_len, replace_all_exec, replace_first_exec};
use vstd::string::*;

verus! {

/// Bit of the "Manage Guild" permission in a Discord permission set.
pub const MANAGE_GUILD: u64 = 32;

/// Bit of the "Create Instant Invite" permission in a Discord permission set.
pub const CREATE_INSTANT_INVITE: u64 = 1;

/// The permission set `bits` holds every bit of `flag`.
pub open spec fn has_permission(bits: u64, flag: u64) -> bool {
    bits & flag == flag
}

/// Whether the permission set `bits` holds every bit of `flag`.
pub fn permission_granted(bits: u64, flag: u64) -> (b: bool)
    ensures
        b == has_permission(bits, flag),
{
    bits & flag == flag
}

/// The fields of a server listing that `set` can change.
#[derive(Debug, Clone, Copy, PartialEq, Eq, Structural)]
pub enum SetField {
    Description,
    LongDescription,
    LongDescriptionType,
    InviteCode,
    InviteChannelID,
    Website,
    Css,
    BannerCard,
    BannerPage,
    KeepBannerDecor,
    Vanity,
    WebhookURL,
    WebhookSecret,
    WebhookHMACOnly,
    RequiresLogin,
    VoteRoles,
    WhitlistOnly,
    WhitelistForm,
}

/// How a long description is rendered; stored as its code.
#[derive(Debug, Clone, Copy, PartialEq, Eq, Structural)]
pub enum LongDescriptionType {
    Html,
    MarkdownServerSide,
}

impl Default for LongDescriptionType {
    fn default() -> (r: Self)
        ensures
            r == LongDescriptionType::MarkdownServerSide,
    {
        LongDescriptionType::MarkdownServerSide
    }
}

pub open spec fn long_description_code(t: LongDescriptionType) -> i32 {
    match t {
        LongDescriptionType::Html => 0,
        LongDescriptionType::MarkdownServerSide => 1,
    }
}

impl LongDescriptionType {
    /// The number stored for this type: 0 for HTML, 1 for Markdown.
    pub fn code(&self) -> (c: i32)
        ensures
            c == long_description_code(*self),
    {
        match self {
            LongDescriptionType::Html => 0,
            LongDescriptionType::MarkdownServerSide => 1,
        }
    }
}

/// The name under which a field is recorded and reported (its variant name).
pub open spec fn field_name(f: SetField) -> Seq<char> {
    match f {
        SetField::Description => "Description"@,
        SetField::LongDescription => "LongDescription"@,
        SetField::LongDescriptionType => "LongDescriptionType"@,
        SetField::InviteCode => "InviteCode"@,
        SetField::InviteChannelID => "InviteChannelID"@,
        SetField::Website => "Website"@,
        SetField::Css => "Css"@,
        SetField::BannerCard => "BannerCard"@,
        SetField::BannerPage => "BannerPage"@,
        SetField::KeepBannerDecor => "KeepBannerDecor"@,
        SetField::Vanity => "Vanity"@,
        SetField::WebhookURL => "WebhookURL"@,
        SetField::WebhookSecret => "WebhookSecret"@,
        SetField::WebhookHMACOnly => "WebhookHMACOnly"@,
        SetField::RequiresLogin => "RequiresLogin"@,
        SetField::VoteRoles => "VoteRoles"@,
        SetField::WhitlistOnly => "WhitlistOnly"@,
        SetField::WhitelistForm => "WhitelistForm"@,
    }
}

fn text(s: &str) -> (r: String)
    ensures
        r@ == s@,
{
    String::from_str(s)
}

impl SetField {
    /// The field's variant name, as `{:?}` prints it.
    pub fn name(&self) -> (s: String)
        ensures
            s@ == field_name(*self),
    {
        match self {
            SetField::Description => text("Description"),
            SetField::LongDescription => text("LongDescription"),
            SetField::LongDescriptionType => text("LongDescriptionType"),
            SetField::InviteCode => text("InviteCode"),
            SetField::InviteChannelID => text("InviteChannelID"),
            SetField::Website => text("Website"),
            SetField::Css => text("Css"),
            SetField::BannerCard => text("BannerCard"),
            SetField::BannerPage => text("BannerPage"),
            SetField::KeepBannerDecor => text("KeepBannerDecor"),
            SetField::Vanity => text("Vanity"),
            SetField::WebhookURL => text("WebhookURL"),
            SetField::WebhookSecret => text("WebhookSecret"),
            SetField::WebhookHMACOnly => text("WebhookHMACOnly"),
            SetField::RequiresLogin => text("RequiresLogin"),
            SetField::VoteRoles => text("VoteRoles"),
            SetField::WhitlistOnly => text("WhitlistOnly"),
            SetField::WhitelistForm => text("WhitelistForm"),
        }
    }
}

/// The reply that stops `set` before anything is read, if any: the command
/// needs a server, a member, and the "Manage Guild" permission of that member
/// (which Discord grants to administrators too).
pub open spec fn set_gate_spec(in_guild: bool, member_permissions: Option<u64>) -> Option<Seq<char>> {
    if !in_guild {
        Some("You must be in a server to use this command"@)
    } else {
        match member_permissions {
            None => Some("You must be in a server to use this command"@),
            Some(bits) => if has_permission(bits, MANAGE_GUILD) {
                None
            } else {
                Some(
                    "You must have ``Manage Server`` or ``Administrator`` permissions to use this command"@,
                )
            },
        }
    }
}

pub open spec fn opt_text(o: Option<String>) -> Option<Seq<char>> {
    match o {
        Some(s) => Some(s@),
        None => None,
    }
}

/// Who may use `set`: `None` lets the command go on, `Some(reply)` ends it.
pub fn set_gate(in_guild: bool, member_permissions: Option<u64>) -> (r: Option<String>)
    ensures
        opt_text(r) == set_gate_spec(in_guild, member_permissions),
{
    if !in_guild {
        return Some(text("You must be in a server to use this command"));
    }
    match member_permissions {
        None => Some(text("You must be in a server to use this command")),
        Some(bits) => if permission_granted(bits, MANAGE_GUILD) {
            None
        } else {
            Some(
                text(
                    "You must have ``Manage Server`` or ``Administrator`` permissions to use this command",
                ),
            )
        },
    }
}

/// The submitted value with every `http://` turned into `https://`.
pub fn force_https(value: &str) -> (r: String)
    ensures
        r@ == replace_all(value@, "http://"@, "https://"@),
{
    proof {
        reveal_strlit("http://");
    }
    replace_all_exec(value, "http://", "https://")
}

/// `p` occurs in `s` somewhere.
pub open spec fn occurs_in(s: Seq<char>, p: Seq<char>) -> bool {
    exists|i: int| 0 <= i <= s.len() && #[trigger] has_prefix(s.skip(i), p)
}

proof fn lemma_prefix_without_h_comes_from_input(s: Seq<char>, q: Seq<char>)
    requires
        !q.contains('h'),
        has_prefix(replace_all(s, "http://"@, "https://"@), q),
    ensures
        has_prefix(s, q),
    decreases s.len(),
{
    reveal_strlit("http://");
    reveal_strlit("https://");
    let h = "http://"@;
    let hs = "https://"@;
    let r = replace_all(s, h, hs);
    if q.len() == 0 {
        assert(s.subrange(0, 0) =~= q);
    } else if s.len() == 0 {
    } else if has_prefix(s, h) {
        assert(r[0] == 'h');
        assert(q[0] == r.subrange(0, q.len() as int)[0]);
        assert(q.contains('h'));
    } else {
        let rest = replace_all(s.drop_first(), h, hs);
        assert(r =~= seq![s[0]] + rest);
        assert(q[0] == s[0]) by {
            assert(r.subrange(0, q.len() as int)[0] == r[0]);
        }
        let q2 = q.drop_first();
        assert(!q2.contains('h')) by {
            if q2.contains('h') {
                let k = choose|k: int| 0 <= k < q2.len() && q2[k] == 'h';
                assert(q[k + 1] == 'h');
            }
        }
        assert(rest.subrange(0, q2.len() as int) =~= r.subrange(0, q.len() as int).drop_first());
        lemma_prefix_without_h_comes_from_input(s.drop_first(), q2);
        assert(s.subrange(0, q.len() as int) =~= seq![s[0]] + s.drop_first().subrange(0, q2.len() as int));
    }
}

proof fn lemma_no_http_after_forcing(s: Seq<char>)
    ensures
        !occurs_in(replace_all(s, "http://"@, "https://"@), "http://"@),
    decreases s.len(),
{
    reveal_strlit("http://");
    reveal_strlit("https://");
    let h = "http://"@;
    let hs = "https://"@;
    let r = replace_all(s, h, hs);
    if s.len() == 0 {
        assert forall|i: int| 0 <= i <= r.len() implies !has_prefix(#[trigger] r.skip(i), h) by {}
    } else if has_prefix(s, h) {
        let rest = replace_all(s.skip(7), h, hs);
        lemma_no_http_after_forcing(s.skip(7));
        assert(r =~= hs + rest);
        assert forall|i: int| 0 <= i <= r.len() implies !has_prefix(#[trigger] r.skip(i), h) by {
            if has_prefix(r.skip(i), h) {
                if i >= 8 {
                    assert(r.skip(i) =~= rest.skip(i - 8));
                    assert(has_prefix(rest.skip(i - 8), h));
                } else {
                    assert(r.skip(i).subrange(0, 7)[0] == 'h');
                    assert(r[i] == 'h');
                    if i == 0 {
                        assert(r.skip(0).subrange(0, 7)[4] == ':');
                        assert(r[4] == 's');
                    } else {
                        assert(r[i] == hs[i]);
                    }
                }
            }
        }
    } else {
        let rest = replace_all(s.drop_first(), h, hs);
        lemma_no_http_after_forcing(s.drop_first());
        assert(r =~= seq![s[0]] + rest);
        assert forall|i: int| 0 <= i <= r.len() implies !has_prefix(#[trigger] r.skip(i), h) by {
            if has_prefix(r.skip(i), h) {
                if i >= 1 {
                    assert(r.skip(i) =~= rest.skip(i - 1));
                    assert(has_prefix(rest.skip(i - 1), h));
                } else {
                    let q = h.drop_first();
                    assert(!q.contains('h')) by {
                        if q.contains('h') {
                            let k = choose|k: int| 0 <= k < q.len() && q[k] == 'h';
                            assert(h[k + 1] == 'h');
                        }
                    }
                    assert(rest.subrange(0, 6) =~= r.skip(0).subrange(0, 7).drop_first());
                    assert(has_prefix(rest, q));
                    lemma_prefix_without_h_comes_from_input(s.drop_first(), q);
                    assert(s.subrange(0, 7) =~= seq![s[0]] + s.drop_first().subrange(0, 6));
                    assert(s[0] == r.skip(0).subrange(0, 7)[0]);
                    assert(has_prefix(s, h));
                }
            }
        }
    }
}

pub(crate) proof fn lemma_replace_without_occurrence(s: Seq<char>, from: Seq<char>, to: Seq<char>)
    requires
        !occurs_in(s, from),
    ensures
        replace_all(s, from, to) == s,
    decreases s.len(),
{
    if s.len() > 0 && from.len() > 0 {
        assert(s.skip(0) =~= s);
        assert(!has_prefix(s.skip(0), from));
        assert(!occurs_in(s.drop_first(), from)) by {
            if occurs_in(s.drop_first(), from) {
                let i = choose|i: int| 0 <= i <= s.drop_first().len() && #[trigger] has_prefix(
                    s.drop_first().skip(i),
                    from,
                );
                assert(s.skip(i + 1) =~= s.drop_first().skip(i));
                assert(has_prefix(s.skip(i + 1), from));
            }
        }
        lemma_replace_without_occurrence(s.drop_first(), from, to);
        assert(seq![s[0]] + s.drop_first() =~= s);
    }
}

/// Forcing HTTPS leaves no `http://` in the value, so forcing it again
/// changes nothing.
pub proof fn law_force_https_is_complete(value: Seq<char>)
    ensures
        !occurs_in(replace_all(value, "http://"@, "https://"@), "http://"@),
        replace_all(replace_all(value, "http://"@, "https://"@), "http://"@, "https://"@)
            == replace_all(value, "http://"@, "https://"@),
{
    lemma_no_http_after_forcing(value);
    lemma_replace_without_occurrence(replace_all(value, "http://"@, "https://"@), "http://"@, "https://"@);
}

/// The value names a paste on pastebin.
pub open spec fn is_pastebin_spec(value: Seq<char>) -> bool {
    has_prefix(value, "https://pastebin.com/"@) || has_prefix(value, "https://www.pastebin.com"@)
        || has_prefix(value, "pastebin.com"@)
}

/// Where the raw text of a pastebin link is fetched from, if the (already
/// forced-HTTPS) value is such a link: the first `pastebin.com/` becomes
/// `pastebin.com/raw/`.
pub open spec fn paste_source_spec(value: Seq<char>) -> Option<Seq<char>> {
    if is_pastebin_spec(value) {
        Some(replace_first(value, "pastebin.com/"@, "pastebin.com/raw/"@))
    } else {
        None
    }
}

/// The URL to fetch instead of taking the value as it is, for a pastebin link.
pub fn paste_source(value: &str) -> (r: Option<String>)
    ensures
        opt_text(r) == paste_source_spec(value@),
{
    if starts_with(value, "https://pastebin.com/") || starts_with(value, "https://www.pastebin.com")
        || starts_with(value, "pastebin.com") {
        proof {
            reveal_strlit("pastebin.com/");
        }
        Some(replace_first_exec(value, "pastebin.com/", "pastebin.com/raw/"))
    } else {
        None
    }
}

/// An HTTP status in the 2xx range.
pub open spec fn is_success_status(status: u16) -> bool {
    200 <= status && status <= 299
}

/// What the fetched paste gives: its text when the status is a success,
/// otherwise the reply naming the status code.
pub open spec fn paste_outcome_spec(status: u16, body: Seq<char>) -> Result<Seq<char>, Seq<char>> {
    if is_success_status(status) {
        Ok(body)
    } else {
        Err("Error: Could not get pastebin due to status code: "@ + nat_text(status as nat))
    }
}

pub open spec fn result_text(r: Result<String, String>) -> Result<Seq<char>, Seq<char>> {
    match r {
        Ok(s) => Ok(s@),
        Err(s) => Err(s@),
    }
}

/// The value after fetching a paste (`Ok`), or the reply that ends `set` (`Err`).
pub fn paste_outcome(status: u16, body: String) -> (r: Result<String, String>)
    ensures
        result_text(r) == paste_outcome_spec(status, body@),
{
    if 200 <= status && status <= 299 {
        Ok(body)
    } else {
        let code = u64_text(status as u64);
        Err(concat2("Error: Could not get pastebin due to status code: ", code.as_str()))
    }
}

/// The long description type that a value names: `html` or `0`, `markdown` or `1`.
pub open spec fn long_description_type_spec(value: Seq<char>) -> Option<LongDescriptionType> {
    if value == "html"@ || value == "0"@ {
        Some(LongDescriptionType::Html)
    } else if value == "markdown"@ || value == "1"@ {
        Some(LongDescriptionType::MarkdownServerSide)
    } else {
        None
    }
}

/// The stored code of a long description type, written in decimal, names
/// that type again.
pub proof fn law_long_description_code_round_trip(t: LongDescriptionType)
    ensures
        long_description_type_spec(int_text(long_description_code(t) as int)) == Some(t),
{
    reveal_strlit("0");
    reveal_strlit("1");
    reveal_strlit("html");
    reveal_strlit("markdown");
    let z = int_text(0);
    let o = int_text(1);
    assert(z =~= "0"@);
    assert(o =~= "1"@);
    assert(z != "html"@ && z != "markdown"@) by {
        assert(z.len() != "html"@.len());
        assert(z.len() != "markdown"@.len());
    }
    assert(o != "html"@ && o != "0"@ && o != "markdown"@) by {
        assert(o.len() != "html"@.len());
        assert(o[0] != "0"@[0]);
    }
}

/// Reads a long description type.
pub fn parse_long_description_type(value: &str) -> (r: Option<LongDescriptionType>)
    ensures
        r == long_description_type_spec(value@),
{
    if text_eq(value, "html") || text_eq(value, "0") {
        Some(LongDescriptionType::Html)
    } else if text_eq(value, "markdown") || text_eq(value, "1") {
        Some(LongDescriptionType::MarkdownServerSide)
    } else {
        None
    }
}

/// The invite code named by a value: the invite URL prefixes are removed
/// wherever they occur.
pub open spec fn invite_code_spec(value: Seq<char>) -> Seq<char> {
    replace_all(
        replace_all(value, "https://discord.gg/"@, ""@),
        "https://discord.com/invite/"@,
        ""@,
    )
}

/// The invite code named by a value.
pub fn invite_code(value: &str) -> (r: String)
    ensures
        r@ == invite_code_spec(value@),
{
    proof {
        reveal_strlit("https://discord.gg/");
        reveal_strlit("https://discord.com/invite/");
    }
    let a = replace_all_exec(value, "https://discord.gg/", "");
    replace_all_exec(a.as_str(), "https://discord.com/invite/", "")
}

/// What `set` does next for a field, once the value is final.
pub enum FieldPlan {
    /// Reply with this text and stop.
    Reject(String),
    /// Store the value as the description.
    UpdateDescription(String),
    /// Store the value as the long description.
    UpdateLongDescription(String),
    /// Store the code of this type as the long description type.
    UpdateLongDescriptionType(LongDescriptionType),
    /// Look for this code among the server's invites (the value becomes this code).
    CheckInvite(String),
    /// Look for this channel among the server's channels.
    CheckInviteChannel(i64),
    /// The value is not an `i64`; the command fails with this error.
    BadChannelId(IntErrorKind),
    /// Tell the member the field cannot be set yet; the change is still recorded.
    Unavailable,
}

/// The text form of a plan.
pub enum PlanView {
    Reject(Seq<char>),
    UpdateDescription(Seq<char>),
    UpdateLongDescription(Seq<char>),
    UpdateLongDescriptionType(LongDescriptionType),
    CheckInvite(Seq<char>),
    CheckInviteChannel(i64),
    BadChannelId(IntErrorKind),
    Unavailable,
}

pub open spec fn plan_view(p: FieldPlan) -> PlanView {
    match p {
        FieldPlan::Reject(s) => PlanView::Reject(s@),
        FieldPlan::UpdateDescription(s) => PlanView::UpdateDescription(s@),
        FieldPlan::UpdateLongDescription(s) => PlanView::UpdateLongDescription(s@),
        FieldPlan::UpdateLongDescriptionType(t) => PlanView::UpdateLongDescriptionType(t),
        FieldPlan::CheckInvite(s) => PlanView::CheckInvite(s@),
        FieldPlan::CheckInviteChannel(i) => PlanView::CheckInviteChannel(i),
        FieldPlan::BadChannelId(e) => PlanView::BadChannelId(e),
        FieldPlan::Unavailable => PlanView::Unavailable,
    }
}

/// The rule of each field: a description holds at most 200 bytes, a long
/// description at least 200; a long description type must be named; an
/// invite is looked up by its code; an invite channel must be an `i64`; the
/// other fields are not available.
pub open spec fn plan_field_spec(field: SetField, value: Seq<char>) -> PlanView {
    match field {
        SetField::Description => if byte_len(value) > 200 {
            PlanView::Reject("Description must be less than 200 characters"@)
        } else {
            PlanView::UpdateDescription(value)
        },
        SetField::LongDescription => if byte_len(value) < 200 {
            PlanView::Reject(
                "Long description must be at least 200 characters.\n\nThis is required in order to create a optimal user experience for your users!\n\nHINT: Pastebin links are supported too!"@,
            )
        } else {
            PlanView::UpdateLongDescription(value)
        },
        SetField::LongDescriptionType => match long_description_type_spec(value) {
            Some(t) => PlanView::UpdateLongDescriptionType(t),
            None => PlanView::Reject(
                "Long description type must be either `html` (`0`) or `markdown` (`1`)"@,
            ),
        },
        SetField::InviteCode => PlanView::CheckInvite(invite_code_spec(value)),
        SetField::InviteChannelID => match parsed_i64(value) {
            Ok(id) => PlanView::CheckInviteChannel(id),
            Err(e) => PlanView::BadChannelId(e),
        },
        _ => PlanView::Unavailable,
    }
}

/// The reply for a field that cannot be set yet.
pub open spec fn unavailable_spec() -> Seq<char> {
    "This command is being revamped right now and this option is not currently available!"@
}

/// The reply for a field that cannot be set yet.
pub fn unavailable_message() -> (s: String)
    ensures
        s@ == unavailable_spec(),
{
    text("This command is being revamped right now and this option is not currently available!")
}

/// What `set` does with the final value of a field.
pub fn plan_field(field: SetField, value: String) -> (p: FieldPlan)
    ensures
        plan_view(p) == plan_field_spec(field, value@),
{
    match field {
        SetField::Description => {
            if utf8_len(&value) > 200 {
                FieldPlan::Reject(text("Description must be less than 200 characters"))
            } else {
                FieldPlan::UpdateDescription(value)
            }
        },
        SetField::LongDescription => {
            if utf8_len(&value) < 200 {
                FieldPlan::Reject(
                    text(
                        "Long description must be at least 200 characters.\n\nThis is required in order to create a optimal user experience for your users!\n\nHINT: Pastebin links are supported too!",
                    ),
                )
            } else {
                FieldPlan::UpdateLongDescription(value)
            }
        },
        SetField::LongDescriptionType => match parse_long_description_type(value.as_str()) {
            Some(t) => FieldPlan::UpdateLongDescriptionType(t),
            None => FieldPlan::Reject(
                text("Long description type must be either `html` (`0`) or `markdown` (`1`)"),
            ),
        },
        SetField::InviteCode => FieldPlan::CheckInvite(invite_code(value.as_str())),
        SetField::InviteChannelID => match parse_i64(value.as_str()) {
            Ok(id) => FieldPlan::CheckInviteChannel(id),
            Err(e) => FieldPlan::BadChannelId(e),
        },
        _ => FieldPlan::Unavailable,
    }
}

/// The reply when the bot itself lacks "Manage Guild", which reading the
/// server's invites needs; `None` when it has it.
pub open spec fn bot_invite_permission_spec(bot_permissions: u64) -> Option<Seq<char>> {
    if has_permission(bot_permissions, MANAGE_GUILD) {
        None
    } else {
        Some(
            "The bot must have the `Manage Server` permission to change invite codes.\nThis is due to a dumb discord API decision to lock some *basic* invite information behind Manage Server\n                \nIt is strongly recommended to remove this permission **immediately** after setting invite code for security purposes"@,
        )
    }
}

/// Whether the bot may read the server's invites: `None`, or the reply.
pub fn bot_invite_permission(bot_permissions: u64) -> (r: Option<String>)
    ensures
        opt_text(r) == bot_invite_permission_spec(bot_permissions),
{
    if permission_granted(bot_permissions, MANAGE_GUILD) {
        None
    } else {
        Some(
            text(
                "The bot must have the `Manage Server` permission to change invite codes.\nThis is due to a dumb discord API decision to lock some *basic* invite information behind Manage Server\n                \nIt is strongly recommended to remove this permission **immediately** after setting invite code for security purposes",
            ),
        )
    }
}

/// What `set` reads of one of the server's invites.
pub struct InviteInfo {
    pub code: String,
    pub max_age: u32,
    pub max_uses: u8,
    pub temporary: bool,
}

/// Index of the first invite with this code.
pub open spec fn first_invite_with(invites: Seq<InviteInfo>, code: Seq<char>) -> Option<int> {
    if exists|k: int| 0 <= k < invites.len() && invites[k].code@ == code {
        Some(
            choose|k: int|
                0 <= k < invites.len() && invites[k].code@ == code && forall|j: int|
                    0 <= j < k ==> invites[j].code@ != code,
        )
    } else {
        None
    }
}

/// The invite `code` is accepted when the first invite with that code never
/// expires, has no use limit and is not temporary; otherwise the reply says
/// what is wrong with it.
pub open spec fn invite_check_spec(invites: Seq<InviteInfo>, code: Seq<char>) -> Result<Seq<char>, Seq<char>> {
    match first_invite_with(invites, code) {
        None => Err("Invite code could not be found on this guild"@),
        Some(k) => if invites[k].max_age != 0 {
            Err(
                "Invite code must be permanent/unlimited time. \n                \nThis is required to provide our users with the optimal experience and not tons of broken links."@,
            )
        } else if invites[k].max_uses != 0 {
            Err(
                "Invite code must be unlimited use. \n                \nThis is required to provide our users with the optimal experience and not tons of broken links."@,
            )
        } else if invites[k].temporary {
            Err(
                "Invite code must not be temporary. \n                \nThis is required to provide our users with the optimal experience and not tons of broken links."@,
            )
        } else {
            Ok(invites[k].code@)
        },
    }
}

/// Checks the invite code against the server's invites: `Ok(code)` to store,
/// `Err(reply)` to stop.
pub fn check_invite(invites: &Vec<InviteInfo>, code: &str) -> (r: Result<String, String>)
    ensures
        result_text(r) == invite_check_spec(invites@, code@),
{
    let mut k: usize = 0;
    while k < invites.len()
        invariant
            k <= invites@.len(),
            forall|j: int| 0 <= j < k ==> invites@[j].code@ != code@,
        decreases invites@.len() - k,
    {
        if text_eq(invites[k].code.as_str(), code) {
            let ghost kk = k as int;
            assert(first_invite_with(invites@, code@) == Some(kk)) by {
                let c = choose|m: int|
                    0 <= m < invites@.len() && invites@[m].code@ == code@ && forall|j: int|
                        0 <= j < m ==> invites@[j].code@ != code@;
                assert(0 <= kk < invites@.len() && invites@[kk].code@ == code@ && forall|j: int|
                    0 <= j < kk ==> invites@[j].code@ != code@);
                if c < kk {
                } else if c > kk {
                    assert(invites@[kk].code@ != code@);
                }
            }
            let inv = &invites[k];
            if inv.max_age != 0 {
                return Err(
                    text(
                        "Invite code must be permanent/unlimited time. \n                \nThis is required to provide our users with the optimal experience and not tons of broken links.",
                    ),
                );
            }
            if inv.max_uses != 0 {
                return Err(
                    text(
                        "Invite code must be unlimited use. \n                \nThis is required to provide our users with the optimal experience and not tons of broken links.",
                    ),
                );
            }
            if inv.temporary {
                return Err(
                    text(
                        "Invite code must not be temporary. \n                \nThis is required to provide our users with the optimal experience and not tons of broken links.",
                    ),
                );
            }
            return Ok(inv.code.clone());
        }
        k = k + 1;
    }
    Err(text("Invite code could not be found on this guild"))
}

/// The channel id that a stored `i64` names (its bits read as a `u64`).
pub open spec fn channel_key(id: i64) -> u64 {
    unsigned_bits(id as int) as u64
}

/// Finds the channel named by `wanted` among the server's channel ids: the
/// last position holding it, or `None` when no position does.
pub fn find_channel(channel_ids: &Vec<u64>, wanted: i64) -> (r: Option<usize>)
    ensures
        r is None <==> forall|j: int| 0 <= j < channel_ids@.len() ==> channel_ids@[j] != channel_key(wanted),
        r matches Some(k) ==> k < channel_ids@.len() && channel_ids@[k as int] == channel_key(wanted)
            && forall|j: int| k < j < channel_ids@.len() ==> channel_ids@[j] != channel_key(wanted),
{
    let key = as_unsigned(wanted);
    let mut found: Option<usize> = None;
    let mut k: usize = 0;
    while k < channel_ids.len()
        invariant
            key == channel_key(wanted),
            k <= channel_ids@.len(),
            found is None <==> forall|j: int| 0 <= j < k ==> channel_ids@[j] != key,
            found matches Some(f) ==> f < k && channel_ids@[f as int] == key && forall|j: int|
                f < j < k ==> channel_ids@[j] != key,
        decreases channel_ids@.len() - k,
    {
        if channel_ids[k] == key {
            found = Some(k);
        }
        k = k + 1;
    }
    found
}

/// The reply when the channel search failed, or when the bot cannot create
/// invites in the channel that was found; `None` lets the channel be stored.
pub open spec fn invite_channel_check_spec(found: bool, bot_channel_permissions: u64) -> Option<Seq<char>> {
    if !found {
        Some("Channel could not be found on this guild"@)
    } else if has_permission(bot_channel_permissions, CREATE_INSTANT_INVITE) {
        None
    } else {
        Some("The bot must have the `Create Instant Invite` permission to set invite channel."@)
    }
}

/// Whether the channel that was searched for may be stored: `None`, or the reply.
pub fn invite_channel_check(found: bool, bot_channel_permissions: u64) -> (r: Option<String>)
    ensures
        opt_text(r) == invite_channel_check_spec(found, bot_channel_permissions),
{
    if !found {
        Some(text("Channel could not be found on this guild"))
    } else if permission_granted(bot_channel_permissions, CREATE_INSTANT_INVITE) {
        None
    } else {
        Some(text("The bot must have the `Create Instant Invite` permission to set invite channel."))
    }
}

/// One entry of the server audit log.
pub struct AuditEntry {
    pub guild_id: i64,
    pub user_id: i64,
    pub username: String,
    pub user_guild_perms: String,
    pub field: String,
    pub value: String,
}

/// The audit entry of a change: ids as stored (`as i64`), the member's
/// permission bits in decimal, the field's name and the value.
pub fn audit_entry(
    guild_id: u64,
    user_id: u64,
    username: String,
    member_permissions: u64,
    field: SetField,
    value: String,
) -> (e: AuditEntry)
    ensures
        e.guild_id as int == signed_bits(guild_id as int),
        e.user_id as int == signed_bits(user_id as int),
        e.username@ == username@,
        e.user_guild_perms@ == nat_text(member_permissions as nat),
        e.field@ == field_name(field),
        e.value@ == value@,
{
    AuditEntry {
        guild_id: as_signed(guild_id),
        user_id: as_signed(user_id),
        username,
        user_guild_perms: u64_text(member_permissions),
        field: field.name(),
        value,
    }
}

/// The reply after a change was recorded.
pub open spec fn set_success_spec(field: SetField) -> Seq<char> {
    "Set "@ + field_name(field) + " successfully. Either use /get or check out your server page!"@
}

/// The reply after a change was recorded.
pub fn set_success_message(field: SetField) -> (s: String)
    ensures
        s@ == set_success_spec(field),
{
    let n = field.name();
    concat3("Set ", n.as_str(), " successfully. Either use /get or check out your server page!")
}

/// `set` goes on only from a server, for a member whose permission set
/// holds the "Manage Guild" bit (1 << 5).
pub proof fn law_gate_needs_manage_guild(in_guild: bool, member_permissions: Option<u64>)
    ensures
        set_gate_spec(in_guild, member_permissions) is None <==> (in_guild && member_permissions is Some
            && member_permissions->0 & 32u64 == 32u64),
{
}

/// A description is taken exactly when its UTF-8 text has at most 200
/// bytes, a long description exactly when it has at least 200; either is
/// taken unchanged.
pub proof fn law_description_lengths(value: Seq<char>)
    ensures
        plan_field_spec(SetField::Description, value) == PlanView::UpdateDescription(value) <==> byte_len(
            value,
        ) <= 200,
        byte_len(value) > 200 ==> plan_field_spec(SetField::Description, value) is Reject,
        plan_field_spec(SetField::LongDescription, value) == PlanView::UpdateLongDescription(value)
            <==> byte_len(value) >= 200,
        byte_len(value) < 200 ==> plan_field_spec(SetField::LongDescription, value) is Reject,
{
}

/// An invite code is accepted only when the server has an invite with that
/// code that never expires, has no use limit and is not temporary; the
/// accepted code is the one looked for.
pub proof fn law_accepted_invite_is_permanent(invites: Seq<InviteInfo>, code: Seq<char>)
    requires
        invite_check_spec(invites, code) is Ok,
    ensures
        invite_check_spec(invites, code)->Ok_0 == code,
        exists|k: int|
            0 <= k < invites.len() && #[trigger] invites[k].code@ == code && invites[k].max_age == 0
                && invites[k].max_uses == 0 && !invites[k].temporary,
{
    let k0 = choose|k: int| 0 <= k < invites.len() && invites[k].code@ == code;
    lemma_first_match_exists(invites, code, k0);
    let w = first_invite_with(invites, code)->0;
    assert(0 <= w < invites.len() && invites[w].code@ == code);
    assert(invites[w].max_age == 0 && invites[w].max_uses == 0 && !invites[w].temporary);
}

/// A code that none of the server's invites has is refused.
pub proof fn law_unknown_invite_is_refused(invites: Seq<InviteInfo>, code: Seq<char>)
    requires
        forall|k: int| 0 <= k < invites.len() ==> #[trigger] invites[k].code@ != code,
    ensures
        invite_check_spec(invites, code) == Err::<Seq<char>, Seq<char>>(
            "Invite code could not be found on this guild"@,
        ),
{
}

proof fn lemma_first_match_exists(invites: Seq<InviteInfo>, code: Seq<char>, k0: int)
    requires
        0 <= k0 < invites.len(),
        invites[k0].code@ == code,
    ensures
        exists|w: int|
            0 <= w < invites.len() && invites[w].code@ == code && forall|j: int|
                0 <= j < w ==> invites[j].code@ != code,
    decreases k0,
{
    if forall|j: int| 0 <= j < k0 ==> invites[j].code@ != code {
    } else {
        let j = choose|j: int| 0 <= j < k0 && invites[j].code@ == code;
        lemma_first_match_exists(invites, code, j);
    }
}

/// A stored channel id that is not negative names the channel with that
/// same number.
pub proof fn law_channel_key_keeps_ids(id: i64)
    ensures
        id >= 0 ==> channel_key(id) as int == id as int,
{
}

/// A fetched paste is used as it is exactly for a 2xx status; otherwise the
/// reply names the status code, which reads back as the status.
pub proof fn law_paste_outcome(status: u16, body: Seq<char>)
    ensures
        (200 <= status && status <= 299) <==> paste_outcome_spec(status, body) == Ok::<Seq<char>, Seq<char>>(
            body,
        ),
        !(200 <= status && status <= 299) ==> exists|t: Seq<char>|
            paste_outcome_spec(status, body) == Err::<Seq<char>, Seq<char>>(
                "Error: Could not get pastebin due to status code: "@ + t,
            ) && crate::decimal::parse_i64_spec(t) == Ok::<int, IntErrorKind>(status as int),
{
    crate::decimal::law_u64_text_round_trip(status as u64);
}

} // verus!
