//! Vote reminders: the list a member can disable, the choices offered for it,
//! and the reminder message sent to each member who can vote again.
use vstd::prelude::*;
use crate::decimal::{i64_text, int_text, nat_text, parse_i64, parsed_i64, push_decimal, push_signed_decimal, unsigned_bits, as_unsigned, law_i64_text_round_trip};
use vstd::string::*;
use crate::toggle::{list_after, subscribe_action_spec, LookupView, SubscribeAction};

verus! {

/// Each server id followed by `, `.
pub open spec fn comma_list(servers: Seq<i64>) -> Seq<char>
    decreases servers.len(),
{
    if servers.len() == 0 {
        Seq::empty()
    } else {
        comma_list(servers.drop_last()) + int_text(servers.last() as int) + ", "@
    }
}

/// What `disablevr` without a server id answers: the enabled servers.
pub open spec fn enabled_text_spec(servers: Seq<i64>) -> Seq<char> {
    "Vote reminders enabled: "@ + comma_list(servers)
}

/// The list of servers a member has reminders for.
pub fn enabled_text(servers: &Vec<i64>) -> (s: String)
    ensures
        s@ == enabled_text_spec(servers@),
{
    let mut s = String::from_str("Vote reminders enabled: ");
    let mut k: usize = 0;
    assert(servers@.take(0) =~= Seq::<i64>::empty());
    while k < servers.len()
        invariant
            k <= servers@.len(),
            s@ == "Vote reminders enabled: "@ + comma_list(servers@.take(k as int)),
        decreases servers@.len() - k,
    {
        assert(servers@.take(k + 1).drop_last() =~= servers@.take(k as int));
        push_signed_decimal(&mut s, servers[k]);
        s.append(", ");
        k = k + 1;
        assert(s@ =~= "Vote reminders enabled: "@ + comma_list(servers@.take(k as int)));
    }
    assert(servers@.take(k as int) =~= servers@);
    s
}

/// What `disablevr` is asked to do.
#[derive(Debug, Clone, Copy, PartialEq, Eq, Structural)]
pub enum DisableRequest {
    /// No server given: list the enabled servers.
    ListEnabled,
    /// The server id is not an `i64`.
    NotANumber,
    /// Remove this server from the member's list (see `list_after_disable`).
    Disable(i64),
}

pub open spec fn disable_request_spec(server_id: Option<Seq<char>>) -> DisableRequest {
    match server_id {
        None => DisableRequest::ListEnabled,
        Some(t) => match parsed_i64(t) {
            Ok(id) => DisableRequest::Disable(id),
            Err(_) => DisableRequest::NotANumber,
        },
    }
}

pub open spec fn opt_view(o: Option<String>) -> Option<Seq<char>> {
    match o {
        Some(s) => Some(s@),
        None => None,
    }
}

/// Reads the argument of `disablevr`.
pub fn disable_request(server_id: Option<String>) -> (r: DisableRequest)
    ensures
        r == disable_request_spec(opt_view(server_id)),
{
    match server_id {
        None => DisableRequest::ListEnabled,
        Some(t) => match parse_i64(t.as_str()) {
            Ok(id) => DisableRequest::Disable(id),
            Err(_) => DisableRequest::NotANumber,
        },
    }
}

/// A member's list once `Disable(server_id)` is carried out: every entry
/// equal to `server_id` is removed, the others keep their order (what
/// `array_remove` does to the stored list).
pub open spec fn list_after_disable(list: Seq<i64>, server_id: i64) -> Seq<i64>
    decreases list.len(),
{
    if list.len() == 0 {
        list
    } else if list.last() == server_id {
        list_after_disable(list.drop_last(), server_id)
    } else {
        list_after_disable(list.drop_last(), server_id).push(list.last())
    }
}

proof fn lemma_disable_absent(list: Seq<i64>, server_id: i64)
    requires
        !list.contains(server_id),
    ensures
        list_after_disable(list, server_id) == list,
    decreases list.len(),
{
    if list.len() > 0 {
        assert(!list.drop_last().contains(server_id)) by {
            if list.drop_last().contains(server_id) {
                let k = choose|k: int| 0 <= k < list.drop_last().len() && list.drop_last()[k] == server_id;
                assert(list[k] == server_id);
            }
        }
        lemma_disable_absent(list.drop_last(), server_id);
        assert(list.last() != server_id) by {
            assert(list[list.len() - 1] == list.last());
        }
        assert(list.drop_last().push(list.last()) =~= list);
    }
}

proof fn lemma_disable_removes(list: Seq<i64>, server_id: i64)
    ensures
        !list_after_disable(list, server_id).contains(server_id),
    decreases list.len(),
{
    if list.len() > 0 {
        lemma_disable_removes(list.drop_last(), server_id);
        let r = list_after_disable(list.drop_last(), server_id);
        if list.last() != server_id {
            assert(!r.push(list.last()).contains(server_id)) by {
                if r.push(list.last()).contains(server_id) {
                    let k = choose|k: int| 0 <= k < r.push(list.last()).len() && r.push(list.last())[k] == server_id;
                    if k < r.len() {
                        assert(r[k] == server_id);
                    }
                }
            }
        }
    }
}

/// Disabling reminders for a server that the member subscribed to by a
/// button press gives back the list they had before the press.
pub proof fn law_disable_undoes_subscribe(list: Seq<i64>, server_id: i64)
    requires
        !list.contains(server_id),
    ensures
        subscribe_action_spec(LookupView::Found(list), server_id) == SubscribeAction::AppendServer,
        list_after(Some(list), SubscribeAction::AppendServer, server_id) == Some(list.push(server_id)),
        list_after_disable(list.push(server_id), server_id) == list,
{
    let l = list.push(server_id);
    assert(l.drop_last() =~= list);
    assert(l.last() == server_id);
    lemma_disable_absent(list, server_id);
}

/// Disabling reminders for a server twice leaves the list as the first time did.
pub proof fn law_disable_twice_changes_nothing(list: Seq<i64>, server_id: i64)
    ensures
        !list_after_disable(list, server_id).contains(server_id),
        list_after_disable(list_after_disable(list, server_id), server_id) == list_after_disable(
            list,
            server_id,
        ),
{
    lemma_disable_removes(list, server_id);
    lemma_disable_absent(list_after_disable(list, server_id), server_id);
}

/// Reply when the server id is not an `i64`.
pub fn not_a_number_message() -> (s: String)
    ensures
        s@ == "Server id must be a i64"@,
{
    String::from_str("Server id must be a i64")
}

/// Reply once reminders for `server_id` are removed.
pub open spec fn disabled_message_spec(server_id: i64) -> Seq<char> {
    "Vote reminders disabled for "@ + int_text(server_id as int)
}

/// Reply once reminders for `server_id` are removed.
pub fn disabled_message(server_id: i64) -> (s: String)
    ensures
        s@ == disabled_message_spec(server_id),
{
    let mut s = String::from_str("Vote reminders disabled for ");
    push_signed_decimal(&mut s, server_id);
    s
}

/// The choices offered while typing the server id of `disablevr`: each
/// server of the member's list, in decimal.
pub open spec fn choices_spec(servers: Seq<i64>) -> Seq<Seq<char>> {
    servers.map_values(|s: i64| int_text(s as int))
}

/// The choices offered while typing the server id of `disablevr`.
pub fn reminder_choices(servers: &Vec<i64>) -> (choices: Vec<String>)
    ensures
        choices@.len() == choices_spec(servers@).len(),
        forall|k: int| 0 <= k < servers@.len() ==> #[trigger] choices@[k]@ == choices_spec(servers@)[k],
        forall|k: int| 0 <= k < servers@.len() ==> #[trigger] choices@[k]@ == int_text(servers@[k] as int),
{
    let mut choices: Vec<String> = Vec::new();
    let mut k: usize = 0;
    while k < servers.len()
        invariant
            k <= servers@.len(),
            choices@.len() == k,
            forall|j: int| 0 <= j < k ==> #[trigger] choices@[j]@ == int_text(servers@[j] as int),
        decreases servers@.len() - k,
    {
        choices.push(i64_text(servers[k]));
        k = k + 1;
    }
    choices
}

/// Every choice offered for `disablevr` disables exactly the server it stands for.
pub proof fn law_choices_disable_their_server(servers: Seq<i64>, k: int)
    requires
        0 <= k < servers.len(),
    ensures
        choices_spec(servers).len() == servers.len(),
        disable_request_spec(Some(choices_spec(servers)[k])) == DisableRequest::Disable(servers[k]),
{
    law_i64_text_round_trip(servers[k]);
}

/// What the reminder task reads of a member due for a reminder.
pub struct ReminderRow {
    pub user_id: i64,
    pub vote_reminders_servers: Vec<i64>,
    pub vote_reminder_channel: Option<i64>,
}

/// Words put before the `k`-th of `n` servers: ` and ` before the last of
/// several, `, ` before the others of several, nothing for a single server.
pub open spec fn joiner(n: int, k: int) -> Seq<char> {
    if n > 1 && k == n - 1 {
        " and "@
    } else if n > 1 {
        ", "@
    } else {
        Seq::empty()
    }
}

/// One server in a reminder.
pub open spec fn server_piece(n: int, k: int, server: i64) -> Seq<char> {
    "the server "@ + joiner(n, k) + " ("@ + int_text(server as int) + ")"@
}

/// The first `k` servers of a reminder.
pub open spec fn servers_phrase(servers: Seq<i64>, k: int) -> Seq<char>
    decreases k,
{
    if k <= 0 {
        Seq::empty()
    } else {
        servers_phrase(servers, k - 1) + server_piece(servers.len() as int, k - 1, servers[k - 1])
    }
}

/// The reminder text: a mention of the member and every server in turn.
pub open spec fn reminder_text_spec(user_id: i64, servers: Seq<i64>) -> Seq<char> {
    "Hey <@"@ + nat_text(unsigned_bits(user_id as int) as nat) + ">, you can vote for "@
        + servers_phrase(servers, servers.len() as int) + " or did you forget?"@
}

/// The reminder sent to a member.
pub fn reminder_text(user_id: i64, servers: &Vec<i64>) -> (s: String)
    ensures
        s@ == reminder_text_spec(user_id, servers@),
{
    let n = servers.len();
    let mut phrase = String::new();
    let mut k: usize = 0;
    while k < n
        invariant
            n == servers@.len(),
            k <= n,
            phrase@ == servers_phrase(servers@, k as int),
        decreases n - k,
    {
        let mut piece = String::from_str("the server ");
        if n > 1 && k == n - 1 {
            piece.append(" and ");
        } else if n > 1 {
            piece.append(", ");
        }
        piece.append(" (");
        push_signed_decimal(&mut piece, servers[k]);
        piece.append(")");
        assert(piece@ =~= server_piece(n as int, k as int, servers@[k as int]));
        phrase.append(piece.as_str());
        k = k + 1;
    }
    let mut s = String::from_str("Hey <@");
    push_decimal(&mut s, as_unsigned(user_id));
    s.append(">, you can vote for ");
    s.append(phrase.as_str());
    s.append(" or did you forget?");
    s
}

/// The channel a reminder goes to: the member's own channel when it is a
/// valid (non-negative) id, otherwise the default one.
pub open spec fn reminder_channel_spec(default_channel: u64, own: Option<i64>) -> u64 {
    match own {
        Some(c) => if c >= 0 {
            c as u64
        } else {
            default_channel
        },
        None => default_channel,
    }
}

/// The channel a reminder goes to.
pub fn reminder_channel(default_channel: u64, own: Option<i64>) -> (c: u64)
    ensures
        c == reminder_channel_spec(default_channel, own),
{
    match own {
        Some(c) => if c >= 0 {
            c as u64
        } else {
            default_channel
        },
        None => default_channel,
    }
}

/// A member gets a reminder only when their recent votes could be counted
/// (`Some`) and none were found (a missing count is zero).
pub open spec fn should_remind_spec(vote_count: Option<Option<i64>>) -> bool {
    match vote_count {
        None => false,
        Some(c) => c.unwrap_or(0) <= 0,
    }
}

/// Whether a member is reminded, from the count of their recent votes.
pub fn should_remind(vote_count: Option<Option<i64>>) -> (b: bool)
    ensures
        b == should_remind_spec(vote_count),
{
    match vote_count {
        None => false,
        Some(c) => match c {
            Some(x) => x <= 0,
            None => true,
        },
    }
}

/// A reminder to send.
pub struct Reminder {
    pub channel: u64,
    pub content: String,
}

/// The reminder for a member due for one, if they get it.
pub fn plan_reminder(default_channel: u64, row: &ReminderRow, vote_count: Option<Option<i64>>) -> (r: Option<Reminder>)
    ensures
        r is Some <==> should_remind_spec(vote_count),
        r matches Some(m) ==> m.channel == reminder_channel_spec(default_channel, row.vote_reminder_channel)
            && m.content@ == reminder_text_spec(row.user_id, row.vote_reminders_servers@),
{
    if !should_remind(vote_count) {
        return None;
    }
    Some(
        Reminder {
            channel: reminder_channel(default_channel, row.vote_reminder_channel),
            content: reminder_text(row.user_id, &row.vote_reminders_servers),
        },
    )
}

/// A reminder goes to the member's own channel whenever they stored a
/// non-negative id (every such `i64` is a valid `u64` id, kept whole), and to
/// the default channel only when they stored none or a negative one.
pub proof fn law_own_channel_is_used(default_channel: u64, own: i64)
    ensures
        own >= 0 ==> reminder_channel_spec(default_channel, Some(own)) as int == own as int,
        own < 0 ==> reminder_channel_spec(default_channel, Some(own)) == default_channel,
        reminder_channel_spec(default_channel, None) == default_channel,
{
}

proof fn lemma_comma_list_concat(x: Seq<i64>, y: Seq<i64>)
    ensures
        comma_list(x + y) == comma_list(x) + comma_list(y),
    decreases y.len(),
{
    if y.len() == 0 {
        assert(x + y =~= x);
        assert(comma_list(x) + comma_list(y) =~= comma_list(x));
    } else {
        assert((x + y).drop_last() =~= x + y.drop_last());
        assert((x + y).last() == y.last());
        lemma_comma_list_concat(x, y.drop_last());
        assert(comma_list(x + y) =~= comma_list(x) + comma_list(y));
    }
}

/// The list of enabled reminders names every server whole: for each stored
/// id, its full decimal text stands in the list between the heading or a
/// `, ` and a `, `, and reads back as that id.
pub proof fn law_enabled_list_names_each_server(servers: Seq<i64>, k: int)
    requires
        0 <= k < servers.len(),
    ensures
        exists|before: Seq<char>, after: Seq<char>|
            enabled_text_spec(servers) == before + int_text(servers[k] as int) + ", "@ + after && (before
                == "Vote reminders enabled: "@ || before.len() >= 2 && before.subrange(
                before.len() - 2,
                before.len() as int,
            ) == ", "@),
        parsed_i64(int_text(servers[k] as int)) == Ok::<i64, crate::decimal::IntErrorKind>(servers[k]),
{
    let x = servers.take(k);
    let y = servers.skip(k + 1);
    assert(servers =~= x + seq![servers[k]] + y);
    lemma_comma_list_concat(x + seq![servers[k]], y);
    lemma_comma_list_concat(x, seq![servers[k]]);
    let one = seq![servers[k]];
    assert(one.drop_last() =~= Seq::<i64>::empty());
    assert(comma_list(Seq::<i64>::empty()) =~= Seq::<char>::empty());
    assert(comma_list(one.drop_last()) =~= Seq::<char>::empty());
    assert(one.last() == servers[k]);
    assert(comma_list(one) =~= int_text(servers[k] as int) + ", "@);
    let before = "Vote reminders enabled: "@ + comma_list(x);
    let after = comma_list(y);
    assert(enabled_text_spec(servers) =~= before + int_text(servers[k] as int) + ", "@ + after);
    if x.len() > 0 {
        reveal_strlit(", ");
        assert(comma_list(x) == comma_list(x.drop_last()) + int_text(x.last() as int) + ", "@);
        assert(before.subrange(before.len() - 2, before.len() as int) =~= ", "@);
    } else {
        assert(comma_list(x) =~= Seq::<char>::empty());
        assert(before =~= "Vote reminders enabled: "@);
    }
    law_i64_text_round_trip(servers[k]);
}

/// The reply after disabling names the server whole: it reads back as the id.
pub proof fn law_disabled_message_names_server(server_id: i64)
    ensures
        exists|t: Seq<char>|
            disabled_message_spec(server_id) == "Vote reminders disabled for "@ + t && parsed_i64(t)
                == Ok::<i64, crate::decimal::IntErrorKind>(server_id),
{
    law_i64_text_round_trip(server_id);
}

proof fn lemma_phrase_prefix(servers: Seq<i64>, j: int, n: int) -> (rest: Seq<char>)
    requires
        0 <= j <= n,
    ensures
        servers_phrase(servers, n) == servers_phrase(servers, j) + rest,
    decreases n - j,
{
    if j == n {
        assert(servers_phrase(servers, n) =~= servers_phrase(servers, j) + Seq::<char>::empty());
        Seq::<char>::empty()
    } else {
        let rest = lemma_phrase_prefix(servers, j, n - 1);
        let piece = server_piece(servers.len() as int, n - 1, servers[n - 1]);
        assert(servers_phrase(servers, n) =~= servers_phrase(servers, j) + (rest + piece));
        rest + piece
    }
}

/// A reminder mentions the member by their whole id (reading back as the id
/// for a non-negative one) and names every server whole, between ` (` and
/// `)`, reading back as the server's id.
#[verifier::spinoff_prover]
#[verifier::rlimit(40)]
pub proof fn law_reminder_names_member_and_servers(user_id: i64, servers: Seq<i64>, k: int)
    requires
        0 <= k < servers.len(),
    ensures
        exists|mention: Seq<char>, rest: Seq<char>|
            reminder_text_spec(user_id, servers) == "Hey <@"@ + mention + ">, you can vote for "@ + rest
                && (user_id >= 0 ==> crate::decimal::parse_i64_spec(mention) == Ok::<
                int,
                crate::decimal::IntErrorKind,
            >(user_id as int)),
        exists|before: Seq<char>, after: Seq<char>|
            reminder_text_spec(user_id, servers) == before + " ("@ + int_text(servers[k] as int) + ")"@
                + after,
        parsed_i64(int_text(servers[k] as int)) == Ok::<i64, crate::decimal::IntErrorKind>(servers[k]),
{
    let mention = nat_text(unsigned_bits(user_id as int) as nat);
    let n = servers.len() as int;
    let phrase = servers_phrase(servers, n);
    let rest = phrase + " or did you forget?"@;
    assert(reminder_text_spec(user_id, servers) =~= "Hey <@"@ + mention + ">, you can vote for "@ + rest);
    if user_id >= 0 {
        crate::decimal::law_u64_text_round_trip(user_id as u64);
    }
    let tail = lemma_phrase_prefix(servers, k + 1, n);
    let head = servers_phrase(servers, k) + "the server "@ + joiner(n, k);
    assert(servers_phrase(servers, k + 1) =~= head + " ("@ + int_text(servers[k] as int) + ")"@);
    let before = "Hey <@"@ + mention + ">, you can vote for "@ + head;
    let after = tail + " or did you forget?"@;
    assert(reminder_text_spec(user_id, servers) =~= before + " ("@ + int_text(servers[k] as int) + ")"@
        + after);
    law_i64_text_round_trip(servers[k]);
}

/// A member is reminded exactly when their recent votes could be counted
/// and none were found (a missing count is zero).
pub proof fn law_reminded_only_without_votes(vote_count: Option<Option<i64>>)
    ensures
        should_remind_spec(vote_count) <==> (vote_count == Some(None::<i64>) || (vote_count matches Some(
            Some(n),
        ) && n <= 0)),
{
}

} // verus!
