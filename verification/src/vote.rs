//! The `vote` command: the request it sends, the button it attaches to its
//! reply, and what it answers for each response of the listing site.
use vstd::prelude::*;
use crate::decimal::{nat_text, push_decimal};
use crate::text::concat3;
use vstd::string::*;

verus! {

/// Reply when the command is used outside a server.
pub fn not_in_server_message() -> (s: String)
    ensures
        s@ == "You must be in a server to vote"@,
{
    String::from_str("You must be in a server to vote")
}

/// Reply when the member has no token on the listing site.
pub fn login_required_message() -> (s: String)
    ensures
        s@ == "You need to login to the site first!"@,
{
    String::from_str("You need to login to the site first!")
}

/// Reply when the vote request could not be sent.
pub fn vote_failed_message() -> (s: String)
    ensures
        s@ == "Failed to vote for this server. Please try again later."@,
{
    String::from_str("Failed to vote for this server. Please try again later.")
}

pub open spec fn vote_url_spec(user_id: u64, guild_id: u64) -> Seq<char> {
    "https://api.fateslist.xyz/users/"@ + nat_text(user_id as nat) + "/servers/"@ + nat_text(
        guild_id as nat,
    ) + "/votes?test=false"@
}

/// The address that records a vote of `user_id` for `guild_id`.
pub fn vote_url(user_id: u64, guild_id: u64) -> (s: String)
    ensures
        s@ == vote_url_spec(user_id, guild_id),
{
    let mut s = String::from_str("https://api.fateslist.xyz/users/");
    push_decimal(&mut s, user_id);
    s.append("/servers/");
    push_decimal(&mut s, guild_id);
    s.append("/votes?test=false");
    s
}

/// Custom id of the button that toggles vote reminders of `user_id` for `guild_id`.
pub open spec fn toggle_id_spec(user_id: u64, guild_id: u64) -> Seq<char> {
    "vrtoggle-"@ + nat_text(user_id as nat) + "-"@ + nat_text(guild_id as nat)
}

/// The custom id of the reminder button attached to a vote reply.
pub fn toggle_id(user_id: u64, guild_id: u64) -> (s: String)
    ensures
        s@ == toggle_id_spec(user_id, guild_id),
{
    let mut s = String::from_str("vrtoggle-");
    push_decimal(&mut s, user_id);
    s.append("-");
    push_decimal(&mut s, guild_id);
    s
}

/// The text of a vote reply: success only for status 200; otherwise the
/// site's `reason`, or "Unknown error" when it gave none.
pub open spec fn vote_reply_spec(status: u16, guild_name: Seq<char>, reason: Option<Seq<char>>) -> Seq<char> {
    if status == 200 {
        "You have successfully voted for "@ + guild_name
    } else {
        "**Error when voting for "@ + guild_name + ":** "@ + match reason {
            Some(r) => r,
            None => "Unknown error"@,
        }
    }
}

pub open spec fn opt_view(o: Option<String>) -> Option<Seq<char>> {
    match o {
        Some(s) => Some(s@),
        None => None,
    }
}

/// The reply to a vote, given the response status and the `reason` it carried.
pub fn vote_reply(status: u16, guild_name: &str, reason: Option<String>) -> (s: String)
    ensures
        s@ == vote_reply_spec(status, guild_name@, opt_view(reason)),
{
    if status == 200 {
        let mut s = String::from_str("You have successfully voted for ");
        s.append(guild_name);
        s
    } else {
        let r = match reason {
            Some(r) => r,
            None => String::from_str("Unknown error"),
        };
        concat3("**Error when voting for ", guild_name, ":** ").concat(r.as_str())
    }
}

/// What `serde_json` reads from a body for a key: `None` when the bytes are
/// not a JSON document, otherwise the string stored under `key` (`None` when
/// there is none, or the document is not an object).
pub uninterp spec fn json_str_field(body: Seq<u8>, key: Seq<char>) -> Option<Option<Seq<char>>>;

pub open spec fn opt_opt_view(o: Option<Option<String>>) -> Option<Option<Seq<char>>> {
    match o {
        Some(Some(s)) => Some(Some(s@)),
        Some(None) => Some(None),
        None => None,
    }
}

/// Parses `body` with `serde_json::from_slice` into a `serde_json::Value`
/// and takes `value[key].as_str()`. The contract names the result
/// (`json_str_field`) and says nothing of JSON syntax.
#[verifier::external_body]
fn str_field_in_json(body: &[u8], key: &str) -> (r: Option<Option<String>>)
    ensures
        opt_opt_view(r) == json_str_field(body@, key@),
{
    match serde_json::from_slice::<serde_json::Value>(body) {
        Ok(v) => match v[key].as_str() {
            Some(s) => Some(Some(s.to_string())),
            None => Some(None),
        },
        Err(_) => None,
    }
}

/// The reply to a vote from the site's response: `None` when the body is not
/// JSON (the command then fails), otherwise the reply text, whose error part
/// is the string under the key `reason`.
pub fn vote_response(status: u16, guild_name: &str, body: &[u8]) -> (r: Option<String>)
    ensures
        r is None <==> json_str_field(body@, "reason"@) is None,
        r matches Some(s) ==> s@ == vote_reply_spec(
            status,
            guild_name@,
            json_str_field(body@, "reason"@)->0,
        ),
{
    match str_field_in_json(body, "reason") {
        None => None,
        Some(reason) => Some(vote_reply(status, guild_name, reason)),
    }
}

/// Who votes.
pub struct VoteRequest {
    pub user_id: u64,
}

/// The server the command came from.
pub struct GuildInfo {
    pub id: u64,
    pub name: String,
}

/// What the listing site answered to the vote.
pub struct SiteResponse {
    pub status: u16,
    pub body: Vec<u8>,
}

/// Where a `vote` command stands.
pub enum VoteStage {
    Start,
    /// Waiting for the member's token.
    Token { guild_id: u64, guild_name: String },
    /// Waiting for the site's response.
    Sent { guild_id: u64, guild_name: String },
    Finished,
}

/// What the last action gave back.
pub enum VoteEvent {
    /// The command was invoked, from this server if any.
    Begin(Option<GuildInfo>),
    /// The member's token on the site, if they have one.
    Token(Option<String>),
    /// The site's response, or `None` when the request could not be sent.
    Response(Option<SiteResponse>),
}

/// What to do next.
pub enum VoteAction {
    /// Reply with this text; the command is over.
    Finish(String),
    /// Report the member's token.
    LookupToken,
    /// Send the vote to `url` with this token, and report the response.
    SendVote { url: String, token: String },
    /// The response body is not JSON: the command fails.
    Fail,
    /// Reply with this text and a reminder button with this id; the command is over.
    Reply { text: String, button: String },
    /// The event does not fit the stage: nothing more is done.
    Stop,
}

pub enum VoteStageView {
    Start,
    Token { guild_id: u64, guild_name: Seq<char> },
    Sent { guild_id: u64, guild_name: Seq<char> },
    Finished,
}

pub enum VoteEventView {
    Begin(Option<(u64, Seq<char>)>),
    Token(Option<Seq<char>>),
    Response(Option<(u16, Seq<u8>)>),
}

pub enum VoteActionView {
    Finish(Seq<char>),
    LookupToken,
    SendVote { url: Seq<char>, token: Seq<char> },
    Fail,
    Reply { text: Seq<char>, button: Seq<char> },
    Stop,
}

pub open spec fn vote_stage_view(s: VoteStage) -> VoteStageView {
    match s {
        VoteStage::Start => VoteStageView::Start,
        VoteStage::Token { guild_id, guild_name } => VoteStageView::Token { guild_id, guild_name: guild_name@ },
        VoteStage::Sent { guild_id, guild_name } => VoteStageView::Sent { guild_id, guild_name: guild_name@ },
        VoteStage::Finished => VoteStageView::Finished,
    }
}

pub open spec fn vote_event_view(e: VoteEvent) -> VoteEventView {
    match e {
        VoteEvent::Begin(g) => VoteEventView::Begin(
            match g {
                Some(g) => Some((g.id, g.name@)),
                None => None,
            },
        ),
        VoteEvent::Token(t) => VoteEventView::Token(opt_view(t)),
        VoteEvent::Response(r) => VoteEventView::Response(
            match r {
                Some(r) => Some((r.status, r.body@)),
                None => None,
            },
        ),
    }
}

pub open spec fn vote_action_view(a: VoteAction) -> VoteActionView {
    match a {
        VoteAction::Finish(s) => VoteActionView::Finish(s@),
        VoteAction::LookupToken => VoteActionView::LookupToken,
        VoteAction::SendVote { url, token } => VoteActionView::SendVote { url: url@, token: token@ },
        VoteAction::Fail => VoteActionView::Fail,
        VoteAction::Reply { text, button } => VoteActionView::Reply { text: text@, button: button@ },
        VoteAction::Stop => VoteActionView::Stop,
    }
}

/// One step of `vote`: it needs a server, then the member's token, then a
/// response; the reply carries the reminder button of the voter and server.
pub open spec fn vote_step_spec(req: VoteRequest, stage: VoteStageView, event: VoteEventView) -> (VoteStageView, VoteActionView) {
    match (stage, event) {
        (VoteStageView::Start, VoteEventView::Begin(g)) => match g {
            None => (VoteStageView::Finished, VoteActionView::Finish("You must be in a server to vote"@)),
            Some((id, name)) => (VoteStageView::Token { guild_id: id, guild_name: name }, VoteActionView::LookupToken),
        },
        (VoteStageView::Token { guild_id, guild_name }, VoteEventView::Token(t)) => match t {
            None => (VoteStageView::Finished, VoteActionView::Finish("You need to login to the site first!"@)),
            Some(token) => (
                VoteStageView::Sent { guild_id, guild_name },
                VoteActionView::SendVote { url: vote_url_spec(req.user_id, guild_id), token },
            ),
        },
        (VoteStageView::Sent { guild_id, guild_name }, VoteEventView::Response(r)) => match r {
            None => (
                VoteStageView::Finished,
                VoteActionView::Finish("Failed to vote for this server. Please try again later."@),
            ),
            Some((status, body)) => match json_str_field(body, "reason"@) {
                None => (VoteStageView::Finished, VoteActionView::Fail),
                Some(reason) => (
                    VoteStageView::Finished,
                    VoteActionView::Reply {
                        text: vote_reply_spec(status, guild_name, reason),
                        button: toggle_id_spec(req.user_id, guild_id),
                    },
                ),
            },
        },
        _ => (VoteStageView::Finished, VoteActionView::Stop),
    }
}

/// One step of `vote`.
pub fn vote_step(req: &VoteRequest, stage: VoteStage, event: VoteEvent) -> (r: (VoteStage, VoteAction))
    ensures
        (vote_stage_view(r.0), vote_action_view(r.1)) == vote_step_spec(
            *req,
            vote_stage_view(stage),
            vote_event_view(event),
        ),
{
    match (stage, event) {
        (VoteStage::Start, VoteEvent::Begin(g)) => match g {
            None => (VoteStage::Finished, VoteAction::Finish(not_in_server_message())),
            Some(g) => (VoteStage::Token { guild_id: g.id, guild_name: g.name }, VoteAction::LookupToken),
        },
        (VoteStage::Token { guild_id, guild_name }, VoteEvent::Token(t)) => match t {
            None => (VoteStage::Finished, VoteAction::Finish(login_required_message())),
            Some(token) => (
                VoteStage::Sent { guild_id, guild_name },
                VoteAction::SendVote { url: vote_url(req.user_id, guild_id), token },
            ),
        },
        (VoteStage::Sent { guild_id, guild_name }, VoteEvent::Response(r)) => match r {
            None => (VoteStage::Finished, VoteAction::Finish(vote_failed_message())),
            Some(resp) => match vote_response(resp.status, guild_name.as_str(), resp.body.as_slice()) {
                None => (VoteStage::Finished, VoteAction::Fail),
                Some(text) => (
                    VoteStage::Finished,
                    VoteAction::Reply { text, button: toggle_id(req.user_id, guild_id) },
                ),
            },
        },
        _ => (VoteStage::Finished, VoteAction::Stop),
    }
}

/// The actions of a run of `vote` from `stage` on the events `events`.
pub open spec fn vote_run(req: VoteRequest, stage: VoteStageView, events: Seq<VoteEventView>) -> Seq<VoteActionView>
    decreases events.len(),
{
    if events.len() == 0 {
        Seq::empty()
    } else {
        let (next, action) = vote_step_spec(req, stage, events[0]);
        seq![action] + vote_run(req, next, events.drop_first())
    }
}

proof fn lemma_vote_finished_does_nothing(req: VoteRequest, events: Seq<VoteEventView>)
    ensures
        vote_run(req, VoteStageView::Finished, events).len() == events.len(),
        forall|k: int| 0 <= k < events.len() ==> #[trigger] vote_run(req, VoteStageView::Finished, events)[k]
            == VoteActionView::Stop,
    decreases events.len(),
{
    if events.len() > 0 {
        lemma_vote_finished_does_nothing(req, events.drop_first());
        let r = vote_run(req, VoteStageView::Finished, events);
        let rest = vote_run(req, VoteStageView::Finished, events.drop_first());
        assert(r =~= seq![VoteActionView::Stop] + rest);
        assert forall|k: int| 0 <= k < events.len() implies #[trigger] r[k] == VoteActionView::Stop by {
            if k > 0 {
                assert(r[k] == rest[k - 1]);
            }
        }
    }
}

/// The run began in a server, the member's token came next, and the action
/// sends the vote to that server's address with that token.
pub open spec fn sent_from_server_with_token(req: VoteRequest, events: Seq<VoteEventView>, a: VoteActionView) -> bool {
    events.len() >= 2 && match (events[0], events[1]) {
        (VoteEventView::Begin(Some((gid, _))), VoteEventView::Token(Some(token))) => a == (
        VoteActionView::SendVote { url: vote_url_spec(req.user_id, gid), token }),
        _ => false,
    }
}

/// A vote is sent only from a server and with the member's token: the run
/// began in a server, the token came next, and the vote goes to that
/// server's address with that token.
pub proof fn law_vote_sent_only_with_token(req: VoteRequest, events: Seq<VoteEventView>, k: int)
    requires
        0 <= k < vote_run(req, VoteStageView::Start, events).len(),
        vote_run(req, VoteStageView::Start, events)[k] is SendVote,
    ensures
        k == 1,
        sent_from_server_with_token(req, events, vote_run(req, VoteStageView::Start, events)[k]),
{
    let run = vote_run(req, VoteStageView::Start, events);
    let (s1, a0) = vote_step_spec(req, VoteStageView::Start, events[0]);
    let rest1 = events.drop_first();
    assert(run =~= seq![a0] + vote_run(req, s1, rest1));
    match events[0] {
        VoteEventView::Begin(Some((gid, name))) => {
            assert(k >= 1);
            let (s2, a1) = vote_step_spec(req, s1, rest1[0]);
            let rest2 = rest1.drop_first();
            assert(vote_run(req, s1, rest1) =~= seq![a1] + vote_run(req, s2, rest2));
            match rest1[0] {
                VoteEventView::Token(Some(token)) => {
                    if k >= 2 {
                        let (s3, a2) = vote_step_spec(req, s2, rest2[0]);
                        let rest3 = rest2.drop_first();
                        assert(vote_run(req, s2, rest2) =~= seq![a2] + vote_run(req, s3, rest3));
                        assert(s3 == VoteStageView::Finished);
                        lemma_vote_finished_does_nothing(req, rest3);
                        if k >= 3 {
                            assert(vote_run(req, s3, rest3)[k - 3] == VoteActionView::Stop);
                        }
                    }
                },
                _ => {
                    lemma_vote_finished_does_nothing(req, rest2);
                    if k >= 2 {
                        assert(vote_run(req, s2, rest2)[k - 2] == VoteActionView::Stop);
                    }
                },
            }
        },
        _ => {
            lemma_vote_finished_does_nothing(req, rest1);
            if k >= 1 {
                assert(vote_run(req, s1, rest1)[k - 1] == VoteActionView::Stop);
            }
        },
    }
}

/// `vote` asks the database for one thing only, the member's token, once,
/// right after it began in a server; no action of a vote run writes to the
/// database (the vote itself is recorded by the listing site).
pub proof fn law_vote_reads_token_once(req: VoteRequest, events: Seq<VoteEventView>, k: int)
    requires
        0 <= k < vote_run(req, VoteStageView::Start, events).len(),
        vote_run(req, VoteStageView::Start, events)[k] is LookupToken,
    ensures
        k == 0,
        events[0] matches VoteEventView::Begin(Some(_)),
{
    let run = vote_run(req, VoteStageView::Start, events);
    let (s1, a0) = vote_step_spec(req, VoteStageView::Start, events[0]);
    let rest1 = events.drop_first();
    assert(run =~= seq![a0] + vote_run(req, s1, rest1));
    if k > 0 {
        match s1 {
            VoteStageView::Token { guild_id, guild_name } => {
                let (s2, a1) = vote_step_spec(req, s1, rest1[0]);
                let rest2 = rest1.drop_first();
                assert(vote_run(req, s1, rest1) =~= seq![a1] + vote_run(req, s2, rest2));
                if k >= 2 {
                    match s2 {
                        VoteStageView::Sent { .. } => {
                            let (s3, a2) = vote_step_spec(req, s2, rest2[0]);
                            let rest3 = rest2.drop_first();
                            assert(vote_run(req, s2, rest2) =~= seq![a2] + vote_run(req, s3, rest3));
                            lemma_vote_finished_does_nothing(req, rest3);
                            if k >= 3 {
                                assert(vote_run(req, s3, rest3)[k - 3] == VoteActionView::Stop);
                            }
                        },
                        _ => {
                            lemma_vote_finished_does_nothing(req, rest2);
                            assert(vote_run(req, s2, rest2)[k - 2] == VoteActionView::Stop);
                        },
                    }
                }
            },
            _ => {
                lemma_vote_finished_does_nothing(req, rest1);
                assert(vote_run(req, s1, rest1)[k - 1] == VoteActionView::Stop);
            },
        }
    }
}

/// Every answer of the site that is JSON, whatever its status, gets a reply
/// that carries the reminder button of the voter and the server: a success
/// text for status 200, otherwise the site's reason (or "Unknown error").
pub proof fn law_every_json_answer_gets_the_button(
    req: VoteRequest,
    guild_id: u64,
    guild_name: Seq<char>,
    status: u16,
    body: Seq<u8>,
)
    requires
        json_str_field(body, "reason"@) is Some,
    ensures
        ({
            let (stage, action) = vote_step_spec(
                req,
                VoteStageView::Sent { guild_id, guild_name },
                VoteEventView::Response(Some((status, body))),
            );
            &&& stage == VoteStageView::Finished
            &&& action matches VoteActionView::Reply { text, button }
            &&& button == "vrtoggle-"@ + nat_text(req.user_id as nat) + "-"@ + nat_text(guild_id as nat)
            &&& status == 200 ==> text == "You have successfully voted for "@ + guild_name
            &&& status != 200 ==> text == "**Error when voting for "@ + guild_name + ":** "@ + match json_str_field(
                body,
                "reason"@,
            )->0 {
                Some(r) => r,
                None => "Unknown error"@,
            }
        }),
{
}

/// The vote goes to the site's address for this member and this server: the
/// two ids stand whole in it and read back as the ids.
pub proof fn law_vote_url_names_member_and_server(user_id: u64, guild_id: u64)
    requires
        user_id <= i64::MAX,
        guild_id <= i64::MAX,
    ensures
        exists|u: Seq<char>, g: Seq<char>|
            vote_url_spec(user_id, guild_id) == "https://api.fateslist.xyz/users/"@ + u + "/servers/"@ + g
                + "/votes?test=false"@ && crate::decimal::parse_i64_spec(u) == Ok::<
                int,
                crate::decimal::IntErrorKind,
            >(user_id as int) && crate::decimal::parse_i64_spec(g) == Ok::<
                int,
                crate::decimal::IntErrorKind,
            >(guild_id as int),
{
    crate::decimal::law_u64_text_round_trip(user_id);
    crate::decimal::law_u64_text_round_trip(guild_id);
    let u = nat_text(user_id as nat);
    let g = nat_text(guild_id as nat);
    assert(vote_url_spec(user_id, guild_id) == "https://api.fateslist.xyz/users/"@ + u + "/servers/"@ + g
        + "/votes?test=false"@);
}

} // verus!
