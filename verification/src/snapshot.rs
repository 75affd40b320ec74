use crate::order::{
    is_sorted_permutation, key_lt, lemma_lex_asymmetric, lemma_strict_listing_unique, lex_lt,
    same_strict_listings, sort_positions, KeyView, SortKey,
};
use vstd::prelude::*;
use vstd::utf8::encode_utf8;

verus! {

broadcast use vstd::utf8::encode_utf8_decode_utf8;

/// What the dashboard knows of one user at a given moment.
pub struct UserStats {
    /// The user's ID.
    pub user_id: String,
    /// Requests waiting in the user's queue; `None` when the user has no queue.
    pub queued: Option<usize>,
    /// Requests of the user being processed right now.
    pub processing: usize,
    /// Requests of the user answered so far.
    pub processed: usize,
    /// Requests of the user dropped so far.
    pub dropped: usize,
    /// The last IP address the user came from, in its textual form, if known.
    pub ip: Option<String>,
}

/// The user has a queue, so the dashboard lists them.
pub open spec fn listed(u: UserStats) -> bool {
    u.queued is Some
}

/// Requests waiting in the user's queue (0 without a queue).
pub open spec fn queue_only(u: UserStats) -> int {
    match u.queued {
        Some(q) => q as int,
        None => 0,
    }
}

/// The user's load: requests queued plus requests being processed.
pub open spec fn load(u: UserStats) -> int {
    queue_only(u) + u.processing
}

/// Requests of the user that are finished: processed plus dropped.
pub open spec fn finished(u: UserStats) -> int {
    u.processed + u.dropped
}

/// The UTF-8 bytes of the user's ID, by which IDs are ordered.
pub open spec fn id_bytes(u: UserStats) -> Seq<u8> {
    encode_utf8(u.user_id@)
}

/// Sum of `f` over a sequence of users.
pub open spec fn sum_of(s: Seq<UserStats>, f: spec_fn(UserStats) -> int) -> int
    decreases s.len(),
{
    if s.len() == 0 {
        0
    } else {
        sum_of(s.drop_last(), f) + f(s.last())
    }
}

pub open spec fn load_of() -> spec_fn(UserStats) -> int {
    |u: UserStats| load(u)
}

pub open spec fn processed_of() -> spec_fn(UserStats) -> int {
    |u: UserStats| u.processed as int
}

pub open spec fn dropped_of() -> spec_fn(UserStats) -> int {
    |u: UserStats| u.dropped as int
}

/// Number of users that have a queue.
pub open spec fn listed_count(s: Seq<UserStats>) -> int
    decreases s.len(),
{
    if s.len() == 0 {
        0
    } else {
        listed_count(s.drop_last()) + if listed(s.last()) {
            1int
        } else {
            0int
        }
    }
}

/// A sum of non-negative terms over a prefix is at most the whole sum.
proof fn lemma_sum_prefix(s: Seq<UserStats>, f: spec_fn(UserStats) -> int, i: int)
    requires
        0 <= i <= s.len(),
        forall|u: UserStats| #[trigger] f(u) >= 0,
    ensures
        sum_of(s.take(i), f) <= sum_of(s, f),
    decreases s.len() - i,
{
    if i == s.len() {
        assert(s.take(i) =~= s);
    } else {
        lemma_sum_prefix(s, f, i + 1);
        assert(s.take(i + 1).drop_last() =~= s.take(i));
    }
}

proof fn lemma_listed_count_bound(s: Seq<UserStats>)
    ensures
        0 <= listed_count(s) <= s.len(),
    decreases s.len(),
{
    if s.len() > 0 {
        lemma_listed_count_bound(s.drop_last());
    }
}

/// The conditions under which the dashboard can show a state: user IDs are
/// distinct, and no count that the dashboard adds up exceeds `usize::MAX`.
pub open spec fn counts_fit(users: Seq<UserStats>, blocked_ips: Seq<String>, blocked_users: Seq<String>) -> bool {
    &&& forall|i: int, j: int|
        0 <= i < j < users.len() ==> #[trigger] users[i].user_id@ != #[trigger] users[j].user_id@
    &&& forall|i: int| 0 <= i < users.len() ==> load(#[trigger] users[i]) <= usize::MAX
    &&& forall|i: int| 0 <= i < users.len() ==> finished(#[trigger] users[i]) <= usize::MAX
    &&& sum_of(users, load_of()) <= usize::MAX
    &&& sum_of(users, processed_of()) <= usize::MAX
    &&& sum_of(users, dropped_of()) <= usize::MAX
    &&& blocked_ips.len() + blocked_users.len() <= usize::MAX
}

/// `a` comes before `b` when its load is larger; at equal loads, when its
/// second count is larger; at equal second counts, when its ID is smaller.
pub open spec fn ranked_before(la: int, sa: int, ta: Seq<u8>, lb: int, sb: int, tb: Seq<u8>) -> bool {
    ||| la > lb
    ||| la == lb && sa > sb
    ||| la == lb && sa == sb && lex_lt(ta, tb)
}

/// The second count by which rows are ordered: finished requests in the
/// users table, processed requests in the queue table.
pub open spec fn second_count(u: UserStats, by_queue: bool) -> int {
    if by_queue {
        u.processed as int
    } else {
        finished(u)
    }
}

/// `u`'s row comes before `v`'s: in the users table (`by_queue` false) by
/// load, then finished requests, then ID; in the queue table (`by_queue`
/// true) by load, then processed requests, then ID.
pub open spec fn row_before(u: UserStats, v: UserStats, by_queue: bool) -> bool {
    ranked_before(
        load(u),
        second_count(u, by_queue),
        id_bytes(u),
        load(v),
        second_count(v, by_queue),
        id_bytes(v),
    )
}

/// `o` lists the users that have a queue, each once, as indices into
/// `users`, in the order of `row_before`.
pub open spec fn is_row_listing(users: Seq<UserStats>, o: Seq<usize>, by_queue: bool) -> bool {
    &&& forall|p: int| 0 <= p < o.len() ==> #[trigger] o[p] < users.len() && listed(users[o[p] as int])
    &&& forall|j: usize| j < users.len() && listed(users[j as int]) ==> #[trigger] o.contains(j)
    &&& forall|p: int, q: int|
        0 <= p < q < o.len() ==> row_before(
            users[#[trigger] o[p] as int],
            users[#[trigger] o[q] as int],
            by_queue,
        )
}

/// The order in which a table lists the users (there is exactly one such listing).
pub open spec fn row_listing(users: Seq<UserStats>, by_queue: bool) -> Seq<usize> {
    choose|o: Seq<usize>| is_row_listing(users, o, by_queue)
}

/// Row order is asymmetric.
pub proof fn lemma_row_before_asymmetric(u: UserStats, v: UserStats, by_queue: bool)
    ensures
        row_before(u, v, by_queue) ==> !row_before(v, u, by_queue),
{
    lemma_lex_asymmetric(id_bytes(u), id_bytes(v));
}

/// A table lists the users in one order only.
pub proof fn lemma_row_listing_unique(
    users: Seq<UserStats>,
    o1: Seq<usize>,
    o2: Seq<usize>,
    by_queue: bool,
)
    requires
        is_row_listing(users, o1, by_queue),
        is_row_listing(users, o2, by_queue),
    ensures
        o1 == o2,
{
    let member = |j: usize| j < users.len() && listed(users[j as int]);
    let lt = |a: usize, b: usize| row_before(users[a as int], users[b as int], by_queue);
    assert forall|a: usize, b: usize| #[trigger] lt(a, b) implies !lt(b, a) by {
        lemma_row_before_asymmetric(users[a as int], users[b as int], by_queue);
    }
    assert forall|p: int, q: int| 0 <= p < q < o1.len() implies lt(#[trigger] o1[p], #[trigger] o1[q]) by {}
    assert forall|p: int, q: int| 0 <= p < q < o2.len() implies lt(#[trigger] o2[p], #[trigger] o2[q]) by {}
    assert forall|p: int| 0 <= p < o1.len() implies member(#[trigger] o1[p]) by {}
    assert forall|p: int| 0 <= p < o2.len() implies member(#[trigger] o2[p]) by {}
    assert forall|j: usize| #[trigger] member(j) implies o1.contains(j) && o2.contains(j) by {}
    lemma_strict_listing_unique(o1, o2, member, lt);
}

/// The sort key that stands for a row.
pub open spec fn row_key(u: UserStats, by_queue: bool) -> KeyView {
    (usize::MAX - load(u), usize::MAX - second_count(u, by_queue), id_bytes(u), 0)
}

proof fn lemma_row_key(u: UserStats, v: UserStats, by_queue: bool)
    ensures
        key_lt(row_key(u, by_queue), row_key(v, by_queue)) == row_before(u, v, by_queue),
        u.user_id@ != v.user_id@ ==> row_key(u, by_queue) != row_key(v, by_queue),
{
    if u.user_id@ != v.user_id@ {
        assert(vstd::utf8::decode_utf8(encode_utf8(u.user_id@)) == u.user_id@);
        assert(vstd::utf8::decode_utf8(encode_utf8(v.user_id@)) == v.user_id@);
    }
}

/// The textual values of a list of strings.
pub open spec fn names_in(list: Seq<String>) -> Seq<Seq<char>> {
    list.map_values(|s: String| s@)
}

/// The textual value of an optional string.
pub open spec fn opt_text(o: Option<String>) -> Option<Seq<char>> {
    match o {
        Some(s) => Some(s@),
        None => None,
    }
}

/// What a blocked entry is: an IP address or a user ID.
#[derive(PartialEq, Eq, Structural, Clone, Copy, Debug)]
pub enum BlockedKind {
    Ip,
    User,
}

/// One row of the blocked-items table.
pub struct BlockedItem {
    pub kind: BlockedKind,
    pub value: String,
}

/// The blocked entries before sorting: the IP addresses, then the user IDs.
pub open spec fn blocked_entries(ips: Seq<String>, users: Seq<String>) -> Seq<(BlockedKind, Seq<char>)> {
    ips.map_values(|s: String| (BlockedKind::Ip, s@)) + users.map_values(
        |s: String| (BlockedKind::User, s@),
    )
}

/// Entry `a` comes before entry `b`: its value is smaller, or the values are
/// equal and `a` came first (a stable sort by value).
pub open spec fn entry_before(items: Seq<(BlockedKind, Seq<char>)>, a: usize, b: usize) -> bool {
    ||| lex_lt(encode_utf8(items[a as int].1), encode_utf8(items[b as int].1))
    ||| items[a as int].1 == items[b as int].1 && a < b
}

/// `o` lists every entry once, in the order of `entry_before`.
pub open spec fn is_blocked_listing(items: Seq<(BlockedKind, Seq<char>)>, o: Seq<usize>) -> bool {
    &&& forall|p: int| 0 <= p < o.len() ==> #[trigger] o[p] < items.len()
    &&& forall|j: usize| j < items.len() ==> #[trigger] o.contains(j)
    &&& forall|p: int, q: int|
        0 <= p < q < o.len() ==> entry_before(items, #[trigger] o[p], #[trigger] o[q])
}

/// The order of the blocked-items table (there is exactly one such listing).
pub open spec fn blocked_listing(items: Seq<(BlockedKind, Seq<char>)>) -> Seq<usize> {
    choose|o: Seq<usize>| is_blocked_listing(items, o)
}

/// The blocked-items table lists the entries in one order only.
pub proof fn lemma_blocked_listing_unique(
    items: Seq<(BlockedKind, Seq<char>)>,
    o1: Seq<usize>,
    o2: Seq<usize>,
)
    requires
        is_blocked_listing(items, o1),
        is_blocked_listing(items, o2),
    ensures
        o1 == o2,
{
    let member = |j: usize| j < items.len();
    let lt = |a: usize, b: usize| entry_before(items, a, b);
    assert forall|a: usize, b: usize| #[trigger] lt(a, b) implies !lt(b, a) by {
        crate::order::lemma_lex_asymmetric(encode_utf8(items[a as int].1), encode_utf8(items[b as int].1));
        crate::order::lemma_lex_irreflexive(encode_utf8(items[a as int].1));
    }
    assert forall|p: int, q: int| 0 <= p < q < o1.len() implies lt(#[trigger] o1[p], #[trigger] o1[q]) by {}
    assert forall|p: int, q: int| 0 <= p < q < o2.len() implies lt(#[trigger] o2[p], #[trigger] o2[q]) by {}
    assert forall|p: int| 0 <= p < o1.len() implies member(#[trigger] o1[p]) by {}
    assert forall|p: int| 0 <= p < o2.len() implies member(#[trigger] o2[p]) by {}
    assert forall|j: usize| #[trigger] member(j) implies o1.contains(j) && o2.contains(j) by {}
    lemma_strict_listing_unique(o1, o2, member, lt);
}

/// How a user's row is marked.
#[derive(PartialEq, Eq, Structural, Clone, Copy, Debug)]
pub enum UserStatus {
    /// The user or the user's IP address is blocked.
    Blocked,
    /// Some of the user's requests are being processed.
    Processing,
    /// The user has requests waiting.
    Queued,
    /// Nothing of the user is waiting or running.
    Idle,
}

/// The status shown for a user.
pub open spec fn status_of(blocked: bool, u: UserStats) -> UserStatus {
    if blocked {
        UserStatus::Blocked
    } else if u.processing > 0 {
        UserStatus::Processing
    } else if queue_only(u) > 0 {
        UserStatus::Queued
    } else {
        UserStatus::Idle
    }
}

/// One row of the users table.
pub struct UserRow {
    pub user_id: String,
    /// The user's last IP address, if known.
    pub ip: Option<String>,
    /// Requests queued plus requests being processed.
    pub queue_len: usize,
    /// Requests queued.
    pub queued: usize,
    /// Requests being processed.
    pub processing: usize,
    pub processed: usize,
    pub dropped: usize,
    /// The user ID is blocked.
    pub user_blocked: bool,
    /// The user's last IP address is blocked.
    pub ip_blocked: bool,
    pub status: UserStatus,
}

/// The user ID is among the blocked users.
pub open spec fn user_is_blocked(blocked_users: Seq<String>, u: UserStats) -> bool {
    names_in(blocked_users).contains(u.user_id@)
}

/// The user's last IP address is known and among the blocked addresses.
pub open spec fn ip_is_blocked(blocked_ips: Seq<String>, u: UserStats) -> bool {
    match u.ip {
        Some(ip) => names_in(blocked_ips).contains(ip@),
        None => false,
    }
}

/// `row` shows user `u`.
pub open spec fn row_shows(row: UserRow, u: UserStats, blocked_ips: Seq<String>, blocked_users: Seq<String>) -> bool {
    &&& row.user_id@ == u.user_id@
    &&& opt_text(row.ip) == opt_text(u.ip)
    &&& row.queue_len == load(u)
    &&& row.queued == queue_only(u)
    &&& row.processing == u.processing
    &&& row.processed == u.processed
    &&& row.dropped == u.dropped
    &&& row.user_blocked == user_is_blocked(blocked_users, u)
    &&& row.ip_blocked == ip_is_blocked(blocked_ips, u)
    &&& row.status == status_of(row.user_blocked || row.ip_blocked, u)
}

/// How a row is marked: blocked exactly when the user ID or the user's IP
/// address is blocked; otherwise running requests mark it as processing
/// whatever the size of the queue, then waiting requests as queued, and a
/// user with neither is idle.
pub proof fn law_row_status(row: UserRow, u: UserStats, blocked_ips: Seq<String>, blocked_users: Seq<String>)
    requires
        row_shows(row, u, blocked_ips, blocked_users),
    ensures
        (row.status == UserStatus::Blocked) == (user_is_blocked(blocked_users, u) || ip_is_blocked(blocked_ips, u)),
        !row.user_blocked && !row.ip_blocked && u.processing > 0 ==> row.status == UserStatus::Processing,
        !row.user_blocked && !row.ip_blocked && u.processing == 0 && queue_only(u) > 0 ==> row.status
            == UserStatus::Queued,
        !row.user_blocked && !row.ip_blocked && u.processing == 0 && queue_only(u) == 0 ==> row.status
            == UserStatus::Idle,
        row.queue_len == row.queued + row.processing,
{
}

/// One row of the queue table.
pub struct QueueRow {
    pub user_id: String,
    /// Requests queued plus requests being processed.
    pub queue_len: usize,
    /// Some of the user's requests are being processed.
    pub is_processing: bool,
}

/// The totals shown in the stats bar.
pub struct Totals {
    /// Users with a queue.
    pub users: usize,
    /// Requests queued or being processed, over all users.
    pub queued: usize,
    /// Requests processed, over all users.
    pub processed: usize,
    /// Requests dropped, over all users.
    pub dropped: usize,
}

/// `list` holds a string with the text of `s`.
fn list_contains(list: &Vec<String>, s: &String) -> (r: bool)
    ensures
        r == names_in(list@).contains(s@),
{
    let n = list.len();
    for j in 0..n
        invariant
            n == list@.len(),
            forall|a: int| 0 <= a < j ==> #[trigger] list@[a]@ != s@,
    {
        if list[j] == *s {
            assert(names_in(list@)[j as int] == s@);
            return true;
        }
    }
    proof {
        if names_in(list@).contains(s@) {
            let a = choose|a: int| 0 <= a < names_in(list@).len() && names_in(list@)[a] == s@;
            assert(list@[a]@ == s@);
        }
    }
    false
}

fn copy_opt(o: &Option<String>) -> (r: Option<String>)
    ensures
        opt_text(r) == opt_text(*o),
{
    match o {
        Some(s) => Some(s.clone()),
        None => None,
    }
}

/// A consistent picture of the gateway's state, as the dashboard shows it:
/// the users, and the blocked IP addresses and user IDs.
pub struct DashboardSnapshot {
    users: Vec<UserStats>,
    blocked_ips: Vec<String>,
    blocked_users: Vec<String>,
}

/// Sums `f` over `users` with checked arithmetic: `None` exactly when the sum exceeds `usize::MAX`.
fn checked_total(users: &Vec<UserStats>, which: u8) -> (r: Option<usize>)
    requires
        which < 3,
        forall|i: int| 0 <= i < users@.len() ==> load(#[trigger] users@[i]) <= usize::MAX,
    ensures
        ({
            let f = if which == 0 {
                load_of()
            } else if which == 1 {
                processed_of()
            } else {
                dropped_of()
            };
            &&& r is Some <==> sum_of(users@, f) <= usize::MAX
            &&& r matches Some(t) ==> t == sum_of(users@, f)
        }),
{
    let ghost f = if which == 0 {
        load_of()
    } else if which == 1 {
        processed_of()
    } else {
        dropped_of()
    };
    let n = users.len();
    let mut total: usize = 0;
    for i in 0..n
        invariant
            n == users@.len(),
            which < 3,
            f == (if which == 0 {
                load_of()
            } else if which == 1 {
                processed_of()
            } else {
                dropped_of()
            }),
            forall|i: int| 0 <= i < users@.len() ==> load(#[trigger] users@[i]) <= usize::MAX,
            total == sum_of(users@.take(i as int), f),
    {
        let u = &users[i];
        let x: usize = if which == 0 {
            assert(load(users@[i as int]) <= usize::MAX);
            let q: usize = match u.queued {
                Some(q) => q,
                None => 0,
            };
            q + u.processing
        } else if which == 1 {
            u.processed
        } else {
            u.dropped
        };
        assert(users@.take(i + 1).drop_last() =~= users@.take(i as int));
        match total.checked_add(x) {
            Some(t) => {
                total = t;
            },
            None => {
                proof {
                    lemma_sum_prefix(users@, f, i + 1);
                }
                return None;
            },
        }
    }
    assert(users@.take(n as int) =~= users@);
    Some(total)
}

impl DashboardSnapshot {
    #[verifier::type_invariant]
    spec fn inv(self) -> bool {
        counts_fit(self.users@, self.blocked_ips@, self.blocked_users@)
    }

    /// The users of the snapshot.
    pub closed spec fn users(&self) -> Seq<UserStats> {
        self.users@
    }

    /// The blocked IP addresses, in their textual form.
    pub closed spec fn blocked_ips(&self) -> Seq<String> {
        self.blocked_ips@
    }

    /// The blocked user IDs.
    pub closed spec fn blocked_users(&self) -> Seq<String> {
        self.blocked_users@
    }

    /// The order in which a table lists the users with a queue, as indices
    /// into the snapshot's users: by load, then (users table) finished or
    /// (queue table) processed requests, larger first, then by ID.
    pub fn row_order(&self, by_queue: bool) -> (o: Vec<usize>)
        ensures
            is_row_listing(self.users(), o@, by_queue),
            o@ == row_listing(self.users(), by_queue),
    {
        proof {
            use_type_invariant(self);
        }
        let ghost users = self.users@;
        let n = self.users.len();
        let mut keys: Vec<SortKey> = Vec::new();
        let mut idx: Vec<usize> = Vec::new();
        for i in 0..n
            invariant
                n == users.len(),
                users == self.users@,
                counts_fit(self.users@, self.blocked_ips@, self.blocked_users@),
                keys@.len() == idx@.len(),
                forall|p: int| 0 <= p < idx@.len() ==> #[trigger] idx@[p] < i && listed(users[idx@[p] as int]),
                forall|p: int, q: int| 0 <= p < q < idx@.len() ==> #[trigger] idx@[p] < #[trigger] idx@[q],
                forall|j: usize| j < i && listed(users[j as int]) ==> #[trigger] idx@.contains(j),
                forall|p: int| 0 <= p < idx@.len() ==> #[trigger] keys@[p]@ == row_key(users[idx@[p] as int], by_queue),
        {
            let u = &self.users[i];
            match u.queued {
                Some(q) => {
                    assert(load(users[i as int]) <= usize::MAX);
                    assert(finished(users[i as int]) <= usize::MAX);
                    let l = q + u.processing;
                    let second = if by_queue {
                        u.processed
                    } else {
                        u.processed + u.dropped
                    };
                    keys.push(
                        SortKey {
                            major: usize::MAX - l,
                            minor: usize::MAX - second,
                            text: u.user_id.as_str().as_bytes_vec(),
                            tiebreak: 0,
                        },
                    );
                    let ghost old_idx = idx@;
                    idx.push(i);
                    proof {
                        assert forall|j: usize| j < i + 1 && listed(users[j as int]) implies #[trigger] idx@.contains(j) by {
                            if j < i {
                                assert(old_idx.contains(j));
                                let p = choose|p: int| 0 <= p < old_idx.len() && old_idx[p] == j;
                                assert(idx@[p] == j);
                            } else {
                                assert(idx@[idx@.len() - 1] == j);
                            }
                        }
                    }
                },
                None => {},
            }
        }
        proof {
            assert forall|a: int, b: int| 0 <= a < b < keys@.len() implies keys@[a]@ != keys@[b]@ by {
                assert(idx@[a] < idx@[b]);
                assert(keys@[a]@ == row_key(users[idx@[a] as int], by_queue));
                assert(keys@[b]@ == row_key(users[idx@[b] as int], by_queue));
                lemma_row_key(users[idx@[a] as int], users[idx@[b] as int], by_queue);
            }
        }
        let pos = sort_positions(&keys);
        let ghost kv = keys@.map_values(|k: SortKey| k@);
        let m = pos.len();
        let mut o: Vec<usize> = Vec::new();
        for p in 0..m
            invariant
                m == pos@.len(),
                keys@.len() == idx@.len(),
                is_sorted_permutation(kv, pos@),
                kv.len() == keys@.len(),
                o@.len() == p,
                forall|r: int| 0 <= r < p ==> #[trigger] o@[r] == idx@[pos@[r] as int],
        {
            o.push(idx[pos[p]]);
        }
        proof {
            assert forall|r: int| 0 <= r < o@.len() implies #[trigger] o@[r] < users.len() && listed(
                users[o@[r] as int],
            ) by {
                assert(pos@[r] < kv.len());
            }
            assert forall|j: usize| j < users.len() && listed(users[j as int]) implies #[trigger] o@.contains(j) by {
                assert(idx@.contains(j));
                let a = choose|a: int| 0 <= a < idx@.len() && idx@[a] == j;
                assert(pos@.contains(a as usize));
                let r = choose|r: int| 0 <= r < pos@.len() && pos@[r] == a as usize;
                assert(o@[r] == j);
            }
            assert forall|p: int, q: int| 0 <= p < q < o@.len() implies row_before(
                users[#[trigger] o@[p] as int],
                users[#[trigger] o@[q] as int],
                by_queue,
            ) by {
                let a = pos@[p] as int;
                let b = pos@[q] as int;
                assert(key_lt(kv[a], kv[b]));
                assert(kv[a] == keys@[a]@);
                assert(kv[b] == keys@[b]@);
                lemma_row_key(users[idx@[a] as int], users[idx@[b] as int], by_queue);
            }
            assert(is_row_listing(users, o@, by_queue));
            lemma_row_listing_unique(users, o@, row_listing(users, by_queue), by_queue);
        }
        o
    }

    /// The user at index `i`.
    pub fn user(&self, i: usize) -> (u: &UserStats)
        requires
            i < self.users().len(),
        ensures
            *u == self.users()[i as int],
    {
        &self.users[i]
    }

    /// Number of users with a queue (the rows of the users table).
    pub fn listed_users(&self) -> (c: usize)
        ensures
            c == listed_count(self.users()),
    {
        let n = self.users.len();
        let mut c: usize = 0;
        for i in 0..n
            invariant
                n == self.users@.len(),
                c == listed_count(self.users@.take(i as int)),
        {
            proof {
                lemma_listed_count_bound(self.users@.take(i as int));
                assert(self.users@.take(i + 1).drop_last() =~= self.users@.take(i as int));
            }
            if self.users[i].queued.is_some() {
                c = c + 1;
            }
        }
        assert(self.users@.take(n as int) =~= self.users@);
        c
    }

    /// Number of blocked entries (IP addresses plus user IDs).
    pub fn blocked_count(&self) -> (c: usize)
        ensures
            c == self.blocked_ips().len() + self.blocked_users().len(),
    {
        proof {
            use_type_invariant(self);
        }
        self.blocked_ips.len() + self.blocked_users.len()
    }

    /// The totals of the stats bar.
    pub fn totals(&self) -> (t: Totals)
        ensures
            t.users == listed_count(self.users()),
            t.queued == sum_of(self.users(), load_of()),
            t.processed == sum_of(self.users(), processed_of()),
            t.dropped == sum_of(self.users(), dropped_of()),
    {
        proof {
            use_type_invariant(self);
        }
        let users = self.listed_users();
        let queued = match checked_total(&self.users, 0) {
            Some(t) => t,
            None => 0,
        };
        let processed = match checked_total(&self.users, 1) {
            Some(t) => t,
            None => 0,
        };
        let dropped = match checked_total(&self.users, 2) {
            Some(t) => t,
            None => 0,
        };
        Totals { users, queued, processed, dropped }
    }

    /// The rows of the users table, in `row_listing` order.
    pub fn user_rows(&self) -> (rows: Vec<UserRow>)
        ensures
            is_row_listing(self.users(), row_listing(self.users(), false), false),
            rows@.len() == row_listing(self.users(), false).len(),
            forall|p: int|
                0 <= p < rows@.len() ==> row_shows(
                    #[trigger] rows@[p],
                    self.users()[row_listing(self.users(), false)[p] as int],
                    self.blocked_ips(),
                    self.blocked_users(),
                ),
    {
        proof {
            use_type_invariant(self);
        }
        let o = self.row_order(false);
        let m = o.len();
        let mut rows: Vec<UserRow> = Vec::new();
        for p in 0..m
            invariant
                m == o@.len(),
                is_row_listing(self.users@, o@, false),
                counts_fit(self.users@, self.blocked_ips@, self.blocked_users@),
                rows@.len() == p,
                forall|r: int|
                    0 <= r < p ==> row_shows(
                        #[trigger] rows@[r],
                        self.users@[o@[r] as int],
                        self.blocked_ips@,
                        self.blocked_users@,
                    ),
        {
            let u = &self.users[o[p]];
            assert(load(self.users@[o@[p as int] as int]) <= usize::MAX);
            let queued: usize = match u.queued {
                Some(q) => q,
                None => 0,
            };
            let user_blocked = list_contains(&self.blocked_users, &u.user_id);
            let ip_blocked = match &u.ip {
                Some(ip) => list_contains(&self.blocked_ips, ip),
                None => false,
            };
            let status = if user_blocked || ip_blocked {
                UserStatus::Blocked
            } else if u.processing > 0 {
                UserStatus::Processing
            } else if queued > 0 {
                UserStatus::Queued
            } else {
                UserStatus::Idle
            };
            rows.push(
                UserRow {
                    user_id: u.user_id.clone(),
                    ip: copy_opt(&u.ip),
                    queue_len: queued + u.processing,
                    queued,
                    processing: u.processing,
                    processed: u.processed,
                    dropped: u.dropped,
                    user_blocked,
                    ip_blocked,
                    status,
                },
            );
        }
        rows
    }

    /// The rows of the queue table, in `row_listing` order.
    pub fn queue_rows(&self) -> (rows: Vec<QueueRow>)
        ensures
            is_row_listing(self.users(), row_listing(self.users(), true), true),
            rows@.len() == row_listing(self.users(), true).len(),
            forall|p: int|
                0 <= p < rows@.len() ==> {
                    let u = self.users()[row_listing(self.users(), true)[p] as int];
                    &&& (#[trigger] rows@[p]).user_id@ == u.user_id@
                    &&& rows@[p].queue_len == load(u)
                    &&& rows@[p].is_processing == (u.processing > 0)
                },
    {
        proof {
            use_type_invariant(self);
        }
        let o = self.row_order(true);
        let m = o.len();
        let mut rows: Vec<QueueRow> = Vec::new();
        for p in 0..m
            invariant
                m == o@.len(),
                is_row_listing(self.users@, o@, true),
                counts_fit(self.users@, self.blocked_ips@, self.blocked_users@),
                rows@.len() == p,
                forall|r: int|
                    0 <= r < p ==> {
                        let u = self.users@[o@[r] as int];
                        &&& (#[trigger] rows@[r]).user_id@ == u.user_id@
                        &&& rows@[r].queue_len == load(u)
                        &&& rows@[r].is_processing == (u.processing > 0)
                    },
        {
            let u = &self.users[o[p]];
            assert(load(self.users@[o@[p as int] as int]) <= usize::MAX);
            let queued: usize = match u.queued {
                Some(q) => q,
                None => 0,
            };
            rows.push(
                QueueRow {
                    user_id: u.user_id.clone(),
                    queue_len: queued + u.processing,
                    is_processing: u.processing > 0,
                },
            );
        }
        rows
    }

    /// The blocked entries in table order: sorted by value, an IP address
    /// before a user ID of the same text.
    pub fn blocked_rows(&self) -> (rows: Vec<BlockedItem>)
        ensures
            ({
                let items = blocked_entries(self.blocked_ips(), self.blocked_users());
                let o = blocked_listing(items);
                &&& is_blocked_listing(items, o)
                &&& rows@.len() == items.len()
                &&& o.len() == items.len()
                &&& forall|p: int|
                    0 <= p < rows@.len() ==> ((#[trigger] rows@[p]).kind, rows@[p].value@)
                        == items[o[p] as int]
            }),
    {
        proof {
            use_type_invariant(self);
        }
        let ghost items = blocked_entries(self.blocked_ips@, self.blocked_users@);
        let ni = self.blocked_ips.len();
        let nu = self.blocked_users.len();
        let mut all: Vec<BlockedItem> = Vec::new();
        let mut keys: Vec<SortKey> = Vec::new();
        for i in 0..ni
            invariant
                ni == self.blocked_ips@.len(),
                nu == self.blocked_users@.len(),
                ni + nu <= usize::MAX,
                items == blocked_entries(self.blocked_ips@, self.blocked_users@),
                all@.len() == i,
                keys@.len() == i,
                forall|r: int| 0 <= r < i ==> (#[trigger] all@[r].kind, all@[r].value@) == items[r],
                forall|r: int| 0 <= r < i ==> #[trigger] keys@[r]@ == (0int, 0int, encode_utf8(items[r].1), r),
        {
            let v = &self.blocked_ips[i];
            all.push(BlockedItem { kind: BlockedKind::Ip, value: v.clone() });
            keys.push(SortKey { major: 0, minor: 0, text: v.as_str().as_bytes_vec(), tiebreak: i });
        }
        for i in 0..nu
            invariant
                ni == self.blocked_ips@.len(),
                nu == self.blocked_users@.len(),
                ni + nu <= usize::MAX,
                items == blocked_entries(self.blocked_ips@, self.blocked_users@),
                items.len() == ni + nu,
                all@.len() == ni + i,
                keys@.len() == ni + i,
                forall|r: int| 0 <= r < ni + i ==> (#[trigger] all@[r].kind, all@[r].value@) == items[r],
                forall|r: int| 0 <= r < ni + i ==> #[trigger] keys@[r]@ == (0int, 0int, encode_utf8(items[r].1), r),
        {
            let v = &self.blocked_users[i];
            all.push(BlockedItem { kind: BlockedKind::User, value: v.clone() });
            keys.push(SortKey { major: 0, minor: 0, text: v.as_str().as_bytes_vec(), tiebreak: ni + i });
        }
        let pos = sort_positions(&keys);
        let ghost kv = keys@.map_values(|k: SortKey| k@);
        proof {
            assert forall|p: int, q: int| 0 <= p < q < pos@.len() implies entry_before(
                items,
                #[trigger] pos@[p],
                #[trigger] pos@[q],
            ) by {
                let a = pos@[p] as int;
                let b = pos@[q] as int;
                assert(key_lt(kv[a], kv[b]));
                assert(kv[a] == keys@[a]@);
                assert(kv[b] == keys@[b]@);
                if encode_utf8(items[a].1) == encode_utf8(items[b].1) {
                    assert(vstd::utf8::decode_utf8(encode_utf8(items[a].1)) == items[a].1);
                    assert(vstd::utf8::decode_utf8(encode_utf8(items[b].1)) == items[b].1);
                }
            }
            assert(is_blocked_listing(items, pos@));
            lemma_blocked_listing_unique(items, pos@, blocked_listing(items));
        }
        let m = pos.len();
        let mut rows: Vec<BlockedItem> = Vec::new();
        for p in 0..m
            invariant
                m == pos@.len(),
                m == items.len(),
                pos@ == blocked_listing(items),
                is_blocked_listing(items, pos@),
                items.len() == all@.len(),
                forall|r: int| 0 <= r < all@.len() ==> (#[trigger] all@[r].kind, all@[r].value@) == items[r],
                rows@.len() == p,
                forall|r: int| 0 <= r < p ==> ((#[trigger] rows@[r]).kind, rows@[r].value@) == items[pos@[r] as int],
        {
            let it = &all[pos[p]];
            rows.push(BlockedItem { kind: it.kind, value: it.value.clone() });
        }
        rows
    }

    /// Takes a snapshot, or `None` where user IDs repeat or a count that the
    /// dashboard adds up would exceed `usize::MAX`.
    pub fn new(users: Vec<UserStats>, blocked_ips: Vec<String>, blocked_users: Vec<String>) -> (r:
        Option<Self>)
        ensures
            r is Some <==> counts_fit(users@, blocked_ips@, blocked_users@),
            r matches Some(s) ==> s.users() == users@ && s.blocked_ips() == blocked_ips@
                && s.blocked_users() == blocked_users@,
    {
        let n = users.len();
        for i in 0..n
            invariant
                n == users@.len(),
                forall|a: int, b: int|
                    0 <= a < b < users@.len() && a < i ==> #[trigger] users@[a].user_id@
                        != #[trigger] users@[b].user_id@,
                forall|a: int| 0 <= a < i ==> load(#[trigger] users@[a]) <= usize::MAX,
                forall|a: int| 0 <= a < i ==> finished(#[trigger] users@[a]) <= usize::MAX,
        {
            let u = &users[i];
            let q: usize = match u.queued {
                Some(q) => q,
                None => 0,
            };
            if q.checked_add(u.processing).is_none() || u.processed.checked_add(u.dropped).is_none() {
                return None;
            }
            for j in i + 1..n
                invariant
                    n == users@.len(),
                    i < n,
                    forall|b: int| i < b < j ==> users@[i as int].user_id@ != #[trigger] users@[b].user_id@,
            {
                if users[i].user_id == users[j].user_id {
                    return None;
                }
            }
        }
        let a = checked_total(&users, 0);
        let b = checked_total(&users, 1);
        let c = checked_total(&users, 2);
        if a.is_none() || b.is_none() || c.is_none() {
            return None;
        }
        if blocked_ips.len().checked_add(blocked_users.len()).is_none() {
            return None;
        }
        Some(DashboardSnapshot { users, blocked_ips, blocked_users })
    }
}

} // verus!
