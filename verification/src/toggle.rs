//! Pressing the reminder button of a vote reply: which presses count, and
//! what the bot does with the member's reminder list.
use vstd::prelude::*;
use crate::decimal::{as_signed, parse_i64, parsed_i64, signed_bits, nat_text, law_u64_text_round_trip, is_digit};
use crate::text::{has_prefix, chars_of, push_char, concat2};
use crate::vote::{toggle_id_spec, vote_step_spec, VoteRequest, VoteStageView, VoteEventView, VoteActionView};
use vstd::string::*;

verus! {

/// `s` cut at every `c` (what `s.split(c)` yields): always at least one
/// piece, one more than there are `c` in `s`.
pub open spec fn split_on(s: Seq<char>, c: char) -> Seq<Seq<char>>
    decreases s.len(),
{
    if s.len() == 0 {
        seq![Seq::<char>::empty()]
    } else {
        let init = split_on(s.drop_last(), c);
        if s.last() == c {
            init.push(Seq::<char>::empty())
        } else {
            init.update(init.len() - 1, init.last().push(s.last()))
        }
    }
}

/// The user and server named by a button id: it starts with `vrtoggle-`,
/// has exactly three `-`-separated parts, and the last two are `i64`s.
pub open spec fn toggle_target_spec(custom_id: Seq<char>) -> Option<(i64, i64)> {
    let parts = split_on(custom_id, '-');
    if has_prefix(custom_id, "vrtoggle-"@) && parts.len() == 3 && parsed_i64(parts[1]) is Ok
        && parsed_i64(parts[2]) is Ok {
        Some((parsed_i64(parts[1])->Ok_0, parsed_i64(parts[2])->Ok_0))
    } else {
        None
    }
}

proof fn lemma_split_len_positive(s: Seq<char>, c: char)
    ensures
        split_on(s, c).len() >= 1,
    decreases s.len(),
{
    if s.len() > 0 {
        lemma_split_len_positive(s.drop_last(), c);
    }
}

/// The pieces of `s` at `c`.
fn split_text(s: &str, c: char) -> (parts: Vec<String>)
    ensures
        parts@.len() == split_on(s@, c).len(),
        forall|k: int| 0 <= k < parts@.len() ==> #[trigger] parts@[k]@ == split_on(s@, c)[k],
{
    let v = chars_of(s);
    let mut done: Vec<String> = Vec::new();
    let mut cur = String::new();
    let mut i: usize = 0;
    assert(v@.take(0) =~= Seq::<char>::empty());
    while i < v.len()
        invariant
            v@ == s@,
            i <= v@.len(),
            done@.len() + 1 == split_on(v@.take(i as int), c).len(),
            forall|k: int| 0 <= k < done@.len() ==> #[trigger] done@[k]@ == split_on(
                v@.take(i as int),
                c,
            )[k],
            cur@ == split_on(v@.take(i as int), c).last(),
        decreases v@.len() - i,
    {
        let ghost prev = split_on(v@.take(i as int), c);
        assert(v@.take(i + 1).drop_last() =~= v@.take(i as int));
        assert(v@.take(i + 1).last() == v@[i as int]);
        if v[i] == c {
            let finished = cur;
            done.push(finished);
            cur = String::new();
        } else {
            push_char(&mut cur, v[i]);
        }
        i = i + 1;
        assert forall|k: int| 0 <= k < done@.len() implies #[trigger] done@[k]@ == split_on(
            v@.take(i as int),
            c,
        )[k] by {}
    }
    assert(v@.take(i as int) =~= s@);
    done.push(cur);
    done
}

/// The user and server that a button id names, if it is a reminder button.
pub fn toggle_target(custom_id: &str) -> (r: Option<(i64, i64)>)
    ensures
        r == toggle_target_spec(custom_id@),
{
    proof {
        lemma_split_len_positive(custom_id@, '-');
    }
    if !crate::text::starts_with(custom_id, "vrtoggle-") {
        return None;
    }
    let parts = split_text(custom_id, '-');
    if parts.len() != 3 {
        return None;
    }
    let user = parse_i64(parts[1].as_str());
    let server = parse_i64(parts[2].as_str());
    match (user, server) {
        (Ok(u), Ok(g)) => Some((u, g)),
        _ => None,
    }
}

/// A press counts when the button names a reminder toggle and the member who
/// pressed it (`presser`, compared as `presser as i64`) is the user it names;
/// the result is the user and the server.
pub open spec fn accepted_press_spec(custom_id: Seq<char>, presser: u64) -> Option<(i64, i64)> {
    match toggle_target_spec(custom_id) {
        Some((u, g)) => if u as int == signed_bits(presser as int) {
            Some((u, g))
        } else {
            None
        },
        None => None,
    }
}

/// Whether a button press asks to subscribe, and for which user and server.
pub fn accepted_press(custom_id: &str, presser: u64) -> (r: Option<(i64, i64)>)
    ensures
        r == accepted_press_spec(custom_id@, presser),
{
    match toggle_target(custom_id) {
        Some((u, g)) => if u == as_signed(presser) {
            Some((u, g))
        } else {
            None
        },
        None => None,
    }
}

/// What the database answered when the member's reminder list was read.
pub enum ReminderLookup {
    /// The member has no row yet.
    NotFound,
    /// The member's list of servers.
    Found(Vec<i64>),
    /// Any other failure, with its text.
    Failed(String),
}

/// The view of a lookup.
pub enum LookupView {
    NotFound,
    Found(Seq<i64>),
    Failed(Seq<char>),
}

pub open spec fn lookup_view(l: &ReminderLookup) -> LookupView {
    match l {
        ReminderLookup::NotFound => LookupView::NotFound,
        ReminderLookup::Found(v) => LookupView::Found(v@),
        ReminderLookup::Failed(s) => LookupView::Failed(s@),
    }
}

/// What the bot does for an accepted press.
#[derive(Debug, Clone, Copy, PartialEq, Eq, Structural)]
pub enum SubscribeAction {
    /// Create the member's row with this server as its only entry.
    InsertRow,
    /// The server is in the list already: change nothing.
    AlreadySubscribed,
    /// Append the server to the member's list.
    AppendServer,
    /// Report the lookup failure.
    ReportError,
}

pub open spec fn subscribe_action_spec(lookup: LookupView, server_id: i64) -> SubscribeAction {
    match lookup {
        LookupView::NotFound => SubscribeAction::InsertRow,
        LookupView::Found(list) => if list.contains(server_id) {
            SubscribeAction::AlreadySubscribed
        } else {
            SubscribeAction::AppendServer
        },
        LookupView::Failed(_) => SubscribeAction::ReportError,
    }
}

/// Decides what an accepted press does with the member's reminder list.
pub fn subscribe_action(lookup: &ReminderLookup, server_id: i64) -> (a: SubscribeAction)
    ensures
        a == subscribe_action_spec(lookup_view(lookup), server_id),
{
    match lookup {
        ReminderLookup::NotFound => SubscribeAction::InsertRow,
        ReminderLookup::Found(list) => {
            let mut k: usize = 0;
            while k < list.len()
                invariant
                    lookup_view(lookup) == LookupView::Found(list@),
                    k <= list@.len(),
                    forall|j: int| 0 <= j < k ==> list@[j] != server_id,
                decreases list@.len() - k,
            {
                if list[k] == server_id {
                    assert(list@.contains(server_id)) by {
                        assert(list@[k as int] == server_id);
                    }
                    return SubscribeAction::AlreadySubscribed;
                }
                k = k + 1;
            }
            SubscribeAction::AppendServer
        },
        ReminderLookup::Failed(_) => SubscribeAction::ReportError,
    }
}

pub open spec fn subscribe_reply_spec(lookup: LookupView, action: SubscribeAction) -> Seq<char> {
    match action {
        SubscribeAction::InsertRow => "You have successfully subscribed to vote reminders!"@,
        SubscribeAction::AppendServer => "You have successfully subscribed to vote reminders!"@,
        SubscribeAction::AlreadySubscribed => "You have already subscribed to vote reminders for this server!"@,
        SubscribeAction::ReportError => "**Error:** "@ + match lookup {
            LookupView::Failed(e) => e,
            _ => Seq::<char>::empty(),
        },
    }
}

/// The (ephemeral) reply to the press, once the action is done.
pub fn subscribe_reply(lookup: &ReminderLookup, action: &SubscribeAction) -> (s: String)
    ensures
        s@ == subscribe_reply_spec(lookup_view(lookup), *action),
{
    match action {
        SubscribeAction::InsertRow => String::from_str("You have successfully subscribed to vote reminders!"),
        SubscribeAction::AppendServer => String::from_str("You have successfully subscribed to vote reminders!"),
        SubscribeAction::AlreadySubscribed => String::from_str(
            "You have already subscribed to vote reminders for this server!",
        ),
        SubscribeAction::ReportError => match lookup {
            ReminderLookup::Failed(e) => concat2("**Error:** ", e.as_str()),
            _ => String::from_str("**Error:** "),
        },
    }
}

/// The member's list once an action is carried out (no list: no row).
pub open spec fn list_after(before: Option<Seq<i64>>, action: SubscribeAction, server_id: i64) -> Option<Seq<i64>> {
    match action {
        SubscribeAction::InsertRow => Some(seq![server_id]),
        SubscribeAction::AppendServer => Some(before.unwrap_or(Seq::empty()).push(server_id)),
        _ => before,
    }
}

pub open spec fn lookup_of(list: Option<Seq<i64>>) -> LookupView {
    match list {
        Some(l) => LookupView::Found(l),
        None => LookupView::NotFound,
    }
}

/// Subscribing is idempotent: after a press has been carried out, pressing
/// the same button again changes nothing, and the server is in the list.
pub proof fn law_second_press_changes_nothing(before: Option<Seq<i64>>, server_id: i64)
    ensures
        ({
            let first = subscribe_action_spec(lookup_of(before), server_id);
            let after = list_after(before, first, server_id);
            &&& after matches Some(l) && l.contains(server_id)
            &&& subscribe_action_spec(lookup_of(after), server_id) == SubscribeAction::AlreadySubscribed
            &&& list_after(after, SubscribeAction::AlreadySubscribed, server_id) == after
        }),
{
    let first = subscribe_action_spec(lookup_of(before), server_id);
    let after = list_after(before, first, server_id);
    match first {
        SubscribeAction::InsertRow => {
            assert(seq![server_id][0] == server_id);
        },
        SubscribeAction::AppendServer => {
            let l = before.unwrap_or(Seq::empty()).push(server_id);
            assert(l[l.len() - 1] == server_id);
        },
        _ => {},
    }
}

proof fn lemma_split_without_sep(s: Seq<char>, c: char)
    requires
        !s.contains(c),
    ensures
        split_on(s, c) == seq![s],
    decreases s.len(),
{
    if s.len() > 0 {
        assert(!s.drop_last().contains(c)) by {
            if s.drop_last().contains(c) {
                let k = choose|k: int| 0 <= k < s.drop_last().len() && s.drop_last()[k] == c;
                assert(s[k] == c);
            }
        }
        lemma_split_without_sep(s.drop_last(), c);
        assert(s.last() != c) by {
            assert(s[s.len() - 1] == s.last());
        }
        assert(s.drop_last().push(s.last()) =~= s);
        assert(split_on(s, c) =~= seq![s]);
    } else {
        assert(s =~= Seq::<char>::empty());
    }
}

proof fn lemma_split_join(x: Seq<char>, y: Seq<char>, c: char)
    ensures
        split_on(x + seq![c] + y, c) == split_on(x, c) + split_on(y, c),
    decreases y.len(),
{
    lemma_split_len_positive(y, c);
    lemma_split_len_positive(x, c);
    if y.len() == 0 {
        assert((x + seq![c] + y).drop_last() =~= x);
        assert(split_on(x + seq![c] + y, c) =~= split_on(x, c) + split_on(y, c));
    } else {
        let s = x + seq![c] + y;
        assert(s.drop_last() =~= x + seq![c] + y.drop_last());
        assert(s.last() == y.last());
        lemma_split_join(x, y.drop_last(), c);
        lemma_split_len_positive(y.drop_last(), c);
        let a = split_on(x, c);
        let b = split_on(y.drop_last(), c);
        assert(split_on(s.drop_last(), c) =~= a + b);
        if y.last() == c {
            assert((a + b).push(Seq::<char>::empty()) =~= a + b.push(Seq::<char>::empty()));
        } else {
            assert((a + b).update((a + b).len() - 1, (a + b).last().push(y.last())) =~= a + b.update(
                b.len() - 1,
                b.last().push(y.last()),
            ));
        }
        assert(split_on(s, c) =~= a + split_on(y, c));
    }
}

proof fn lemma_digits_no_dash(n: nat)
    ensures
        !nat_text(n).contains('-'),
{
    crate::decimal::lemma_nat_text_digits(n);
    if nat_text(n).contains('-') {
        let k = choose|k: int| 0 <= k < nat_text(n).len() && nat_text(n)[k] == '-';
        assert(is_digit(nat_text(n)[k]));
    }
}

/// The button attached to a vote reply is accepted when the same member
/// presses it: it names that member and that server (ids up to `i64::MAX`,
/// as Discord ids are).
pub proof fn law_vote_button_round_trip(user_id: u64, guild_id: u64)
    requires
        user_id <= i64::MAX,
        guild_id <= i64::MAX,
    ensures
        accepted_press_spec(toggle_id_spec(user_id, guild_id), user_id) == Some(
            (user_id as i64, guild_id as i64),
        ),
{
    let u = nat_text(user_id as nat);
    let g = nat_text(guild_id as nat);
    let id = toggle_id_spec(user_id, guild_id);
    reveal_strlit("vrtoggle-");
    reveal_strlit("vrtoggle");
    reveal_strlit("-");
    lemma_digits_no_dash(user_id as nat);
    lemma_digits_no_dash(guild_id as nat);
    let head: Seq<char> = "vrtoggle"@;
    assert(!head.contains('-')) by {
        if head.contains('-') {
            let k = choose|k: int| 0 <= k < head.len() && head[k] == '-';
        }
    }
    assert(id =~= head + seq!['-'] + (u + seq!['-'] + g));
    lemma_split_join(head, u + seq!['-'] + g, '-');
    lemma_split_join(u, g, '-');
    lemma_split_without_sep(head, '-');
    lemma_split_without_sep(u, '-');
    lemma_split_without_sep(g, '-');
    let parts = split_on(id, '-');
    assert(parts =~= seq![head, u, g]);
    law_u64_text_round_trip(user_id);
    law_u64_text_round_trip(guild_id);
    assert(has_prefix(id, "vrtoggle-"@));
}

/// The button on a vote reply, pressed by the voter, subscribes them to
/// reminders for the server they voted for.
pub proof fn law_reply_button_subscribes_voter(
    req: VoteRequest,
    guild_id: u64,
    guild_name: Seq<char>,
    status: u16,
    body: Seq<u8>,
)
    requires
        req.user_id <= i64::MAX,
        guild_id <= i64::MAX,
    ensures
        vote_step_spec(
            req,
            VoteStageView::Sent { guild_id, guild_name },
            VoteEventView::Response(Some((status, body))),
        ).1 matches VoteActionView::Reply { button, .. } ==> accepted_press_spec(button, req.user_id)
            == Some((req.user_id as i64, guild_id as i64)),
{
    law_vote_button_round_trip(req.user_id, guild_id);
}

/// For a member who has a list, a press is "already subscribed" exactly when
/// the server is somewhere in the list, and otherwise appends it; the list
/// is then unchanged, or grows by that server at its end, so a press never
/// puts a server in the list twice.
pub proof fn law_press_on_found_list(list: Seq<i64>, server_id: i64)
    ensures
        (subscribe_action_spec(LookupView::Found(list), server_id) == SubscribeAction::AlreadySubscribed)
            <==> (exists|k: int| 0 <= k < list.len() && list[k] == server_id),
        (forall|k: int| 0 <= k < list.len() ==> list[k] != server_id) ==> subscribe_action_spec(
            LookupView::Found(list),
            server_id,
        ) == SubscribeAction::AppendServer,
        (exists|k: int| 0 <= k < list.len() && list[k] == server_id) ==> list_after(
            Some(list),
            subscribe_action_spec(LookupView::Found(list), server_id),
            server_id,
        ) == Some(list),
        (forall|k: int| 0 <= k < list.len() ==> list[k] != server_id) ==> list_after(
            Some(list),
            subscribe_action_spec(LookupView::Found(list), server_id),
            server_id,
        ) == Some(list.push(server_id)),
        list.no_duplicates() ==> list_after(
            Some(list),
            subscribe_action_spec(LookupView::Found(list), server_id),
            server_id,
        )->0.no_duplicates(),
{
    let a = subscribe_action_spec(LookupView::Found(list), server_id);
    if exists|k: int| 0 <= k < list.len() && list[k] == server_id {
        let k = choose|k: int| 0 <= k < list.len() && list[k] == server_id;
        assert(list.contains(server_id));
    } else {
        assert(!list.contains(server_id));
        let l = list.push(server_id);
        if list.no_duplicates() {
            assert forall|i: int, j: int| 0 <= i < l.len() && 0 <= j < l.len() && i != j implies l[i]
                != l[j] by {
                if i < list.len() && j < list.len() {
                    assert(l[i] == list[i] && l[j] == list[j]);
                } else if i < list.len() {
                    assert(l[i] == list[i]);
                } else if j < list.len() {
                    assert(l[j] == list[j]);
                }
            }
        }
    }
}

/// A press is accepted only from the member the button names: for a
/// presser whose id fits in an `i64`, the accepted user is that very id.
pub proof fn law_only_named_member_is_accepted(custom_id: Seq<char>, presser: u64)
    requires
        presser <= i64::MAX,
    ensures
        accepted_press_spec(custom_id, presser) matches Some((u, _)) ==> u as int == presser as int,
{
}

} // verus!
