use sha2::Digest;
use vstd::prelude::*;
use vstd::utf8::is_ascii_chars;

verus! {

/// The lower-case hexadecimal digit of a nibble (`0 <= n < 16`).
pub open spec fn hex_digit(n: int) -> char {
    seq!['0', '1', '2', '3', '4', '5', '6', '7', '8', '9', 'a', 'b', 'c', 'd', 'e', 'f'][n]
}

/// Lower-case hexadecimal rendering of a byte string, two digits per byte,
/// most significant nibble first (what `{:02x}` prints for each byte).
pub open spec fn hex_lower(bytes: Seq<u8>) -> Seq<char>
    decreases bytes.len(),
{
    if bytes.len() == 0 {
        Seq::empty()
    } else {
        let b = bytes.last();
        hex_lower(bytes.drop_last()) + seq![hex_digit(b as int / 16), hex_digit(b as int % 16)]
    }
}

/// One hexadecimal digit as a one-character string.
fn hex_digit_str(n: u8) -> (s: &'static str)
    requires
        n < 16,
    ensures
        s@ == seq![hex_digit(n as int)],
{
    match n {
        0 => { proof { reveal_strlit("0"); } "0" },
        1 => { proof { reveal_strlit("1"); } "1" },
        2 => { proof { reveal_strlit("2"); } "2" },
        3 => { proof { reveal_strlit("3"); } "3" },
        4 => { proof { reveal_strlit("4"); } "4" },
        5 => { proof { reveal_strlit("5"); } "5" },
        6 => { proof { reveal_strlit("6"); } "6" },
        7 => { proof { reveal_strlit("7"); } "7" },
        8 => { proof { reveal_strlit("8"); } "8" },
        9 => { proof { reveal_strlit("9"); } "9" },
        10 => { proof { reveal_strlit("a"); } "a" },
        11 => { proof { reveal_strlit("b"); } "b" },
        12 => { proof { reveal_strlit("c"); } "c" },
        13 => { proof { reveal_strlit("d"); } "d" },
        14 => { proof { reveal_strlit("e"); } "e" },
        _ => { proof { reveal_strlit("f"); } "f" },
    }
}

/// Renders `bytes` as lower-case hexadecimal, two digits per byte.
pub fn to_hex_lower(bytes: &[u8]) -> (res: String)
    ensures
        res@ == hex_lower(bytes@),
        res@.len() == 2 * bytes@.len(),
{
    let mut res = String::new();
    let n = bytes.len();
    for i in 0..n
        invariant
            n == bytes@.len(),
            res@ == hex_lower(bytes@.take(i as int)),
            res@.len() == 2 * i,
    {
        let b = bytes[i];
        res.append(hex_digit_str(b / 16));
        res.append(hex_digit_str(b % 16));
        assert(bytes@.take(i + 1).drop_last() =~= bytes@.take(i as int));
    }
    assert(bytes@.take(n as int) =~= bytes@);
    res
}


// ---------------------------------------------------------------------------
// Calls into outside code
// ---------------------------------------------------------------------------

/// The SHA-256 digest of a byte string, as `sha2` computes it.
pub uninterp spec fn sha256_of(data: Seq<u8>) -> Seq<u8>;

/// Calls `sha2::Sha256::digest` (from the `sha2::Digest` trait).
/// Claimed: the digest depends on the input bytes alone (named `sha256_of`),
/// and it is 32 bytes long, the output size that `sha2` fixes for SHA-256.
#[verifier::external_body]
fn sha256_digest(data: &[u8]) -> (res: Vec<u8>)
    ensures
        res@ == sha256_of(data@),
        res@.len() == 32,
{
    sha2::Sha256::digest(data).to_vec()
}

/// What `str::to_lowercase` returns: the Unicode lower-case mapping of a string.
pub uninterp spec fn unicode_lowercase(s: Seq<char>) -> Seq<char>;

/// Lower-cases the ASCII letters `A`..`Z` of a string and keeps every other character.
pub open spec fn ascii_lowercase(s: Seq<char>) -> Seq<char> {
    s.map_values(|c: char| if 'A' <= c && c <= 'Z' { ((c as int) + 32) as char } else { c })
}

/// Calls `str::to_lowercase`.
/// Claimed: the result depends on the characters of the input alone (named
/// `unicode_lowercase`), and on an all-ASCII input it maps `A`..`Z` to
/// `a`..`z` and keeps every other character, as std documents for ASCII text.
/// What it does to other characters (the Unicode case tables) is left unsaid.
#[verifier::external_body]
fn str_to_lowercase(s: &str) -> (res: String)
    ensures
        res@ == unicode_lowercase(s@),
        is_ascii_chars(s@) ==> res@ == ascii_lowercase(s@),
{
    s.to_lowercase()
}

// ---------------------------------------------------------------------------
// The registry
// ---------------------------------------------------------------------------

/// One user as listed in the users file: the SHA-256 hex digest of the
/// user's token (never the token itself), the user ID, and the VIP flag
/// (false where the file leaves it out).
pub struct UserEntry {
    pub token_hash: String,
    pub user_id: String,
    pub vip: bool,
}

/// The users file: a list of users.
pub struct UsersFile {
    pub users: Vec<UserEntry>,
}

/// A registered user: key (lower-case SHA-256 hex of the token), ID, VIP flag.
struct Account {
    token_hash: String,
    user_id: String,
    vip: bool,
}

/// What a registry maps each token hash to: the user ID and the VIP flag.
pub type Registered = (Seq<char>, bool);

/// The map that a list of accounts stands for (later accounts win).
spec fn accounts_map(s: Seq<Account>) -> Map<Seq<char>, Registered>
    decreases s.len(),
{
    if s.len() == 0 {
        Map::empty()
    } else {
        accounts_map(s.drop_last()).insert(s.last().token_hash@, (s.last().user_id@, s.last().vip))
    }
}

/// No two accounts share a token hash.
spec fn distinct_hashes(s: Seq<Account>) -> bool {
    forall|i: int, j: int|
        0 <= i < j < s.len() ==> #[trigger] s[i].token_hash@ != #[trigger] s[j].token_hash@
}

/// With distinct hashes, the map holds exactly the accounts' hashes, each with its own account.
proof fn lemma_accounts_map(s: Seq<Account>)
    requires
        distinct_hashes(s),
    ensures
        forall|k: Seq<char>|
            #[trigger] accounts_map(s).contains_key(k) <==> exists|i: int|
                0 <= i < s.len() && #[trigger] s[i].token_hash@ == k,
        forall|i: int|
            0 <= i < s.len() ==> accounts_map(s)[#[trigger] s[i].token_hash@] == (
                s[i].user_id@,
                s[i].vip,
            ),
    decreases s.len(),
{
    if s.len() > 0 {
        let t = s.drop_last();
        assert(distinct_hashes(t));
        lemma_accounts_map(t);
        assert forall|k: Seq<char>|
            #[trigger] accounts_map(s).contains_key(k) <==> exists|i: int|
                0 <= i < s.len() && #[trigger] s[i].token_hash@ == k by {
            if accounts_map(s).contains_key(k) && k != s.last().token_hash@ {
                assert(accounts_map(t).contains_key(k));
                let i = choose|i: int| 0 <= i < t.len() && #[trigger] t[i].token_hash@ == k;
                assert(t[i] == s[i]);
                assert(s[i].token_hash@ == k);
            }
            if k == s.last().token_hash@ {
                assert(s[s.len() - 1].token_hash@ == k);
            }
            if exists|i: int| 0 <= i < s.len() && #[trigger] s[i].token_hash@ == k {
                let i = choose|i: int| 0 <= i < s.len() && #[trigger] s[i].token_hash@ == k;
                if i < s.len() - 1 {
                    assert(t[i].token_hash@ == k);
                }
            }
        }
        assert forall|i: int| 0 <= i < s.len() implies accounts_map(s)[#[trigger] s[i].token_hash@]
            == (s[i].user_id@, s[i].vip) by {
            if i < s.len() - 1 {
                assert(t[i] == s[i]);
                assert(s[i].token_hash@ != s[s.len() - 1].token_hash@);
            }
        }
    }
}

/// Adds an account to a list of accounts with distinct hashes, replacing the
/// account with the same hash if there is one.
fn upsert(accounts: &mut Vec<Account>, acc: Account)
    requires
        distinct_hashes(old(accounts)@),
    ensures
        distinct_hashes(final(accounts)@),
        accounts_map(final(accounts)@) == accounts_map(old(accounts)@).insert(
            acc.token_hash@,
            (acc.user_id@, acc.vip),
        ),
{
    let ghost s = accounts@;
    let n = accounts.len();
    let mut j: usize = 0;
    while j < n
        invariant
            n == accounts@.len(),
            accounts@ == s,
            j <= n,
            forall|i: int| 0 <= i < j ==> #[trigger] s[i].token_hash@ != acc.token_hash@,
        ensures
            j <= n,
            j < n ==> s[j as int].token_hash@ == acc.token_hash@,
            forall|i: int| 0 <= i < j ==> #[trigger] s[i].token_hash@ != acc.token_hash@,
        decreases n - j,
    {
        if accounts[j].token_hash == acc.token_hash {
            break;
        }
        j = j + 1;
    }
    proof {
        lemma_accounts_map(s);
    }
    if j < n {
        let ghost key = acc.token_hash@;
        assert(s[j as int].token_hash@ == key);
        accounts.set(j, acc);
        let ghost s2 = accounts@;
        assert(distinct_hashes(s2)) by {
            assert forall|a: int, b: int| 0 <= a < b < s2.len() implies #[trigger] s2[a].token_hash@
                != #[trigger] s2[b].token_hash@ by {
                if a != j && b != j {
                    assert(s[a].token_hash@ != s[b].token_hash@);
                } else if a == j {
                    assert(s[j as int].token_hash@ != s[b].token_hash@);
                } else {
                    assert(s[a].token_hash@ != s[j as int].token_hash@);
                }
            }
        }
        proof {
            lemma_accounts_map(s2);
            let m = accounts_map(s).insert(key, (acc.user_id@, acc.vip));
            let m2 = accounts_map(s2);
            assert forall|k: Seq<char>| #[trigger] m2.contains_key(k) <==> m.contains_key(k) by {
                if m.contains_key(k) && k != key {
                    let i = choose|i: int| 0 <= i < s.len() && #[trigger] s[i].token_hash@ == k;
                    assert(s2[i].token_hash@ == k);
                }
                if m2.contains_key(k) && k != key {
                    let i = choose|i: int| 0 <= i < s2.len() && #[trigger] s2[i].token_hash@ == k;
                    assert(s[i].token_hash@ == k);
                }
                if k == key {
                    assert(s2[j as int].token_hash@ == k);
                }
            }
            assert forall|k: Seq<char>| #[trigger] m2.contains_key(k) implies m2[k] == m[k] by {
                let i = choose|i: int| 0 <= i < s2.len() && #[trigger] s2[i].token_hash@ == k;
                if i != j {
                    assert(s[i].token_hash@ == k);
                }
            }
            assert(m2 =~= m);
        }
    } else {
        accounts.push(acc);
        let ghost s2 = accounts@;
        assert(s2.drop_last() =~= s);
        assert(distinct_hashes(s2)) by {
            assert forall|a: int, b: int| 0 <= a < b < s2.len() implies #[trigger] s2[a].token_hash@
                != #[trigger] s2[b].token_hash@ by {
                if b < n {
                    assert(s[a].token_hash@ != s[b].token_hash@);
                } else {
                    assert(s[a].token_hash@ != acc.token_hash@);
                }
            }
        }
    }
}

/// The registry that a users file describes: each listed user under the
/// lower-cased token hash (where two users share a hash, the later one wins).
pub open spec fn users_map(users: Seq<UserEntry>) -> Map<Seq<char>, Registered>
    decreases users.len(),
{
    if users.len() == 0 {
        Map::empty()
    } else {
        let e = users.last();
        users_map(users.drop_last()).insert(
            unicode_lowercase(e.token_hash@),
            (e.user_id@, e.vip),
        )
    }
}

/// The key under which a raw token is looked up: the lower-case hex of the
/// SHA-256 digest of its UTF-8 bytes.
pub open spec fn token_key(raw_token: Seq<char>) -> Seq<char> {
    hex_lower(sha256_of(vstd::utf8::encode_utf8(raw_token)))
}

/// `ids` lists the user IDs of the VIP users of `m`: there is an
/// enumeration of the VIP token hashes, each once, whose user IDs are `ids`.
pub open spec fn lists_vip_users(m: Map<Seq<char>, Registered>, ids: Seq<Seq<char>>) -> bool {
    exists|keys: Seq<Seq<char>>|
        #![trigger keys.to_set()]
        keys.no_duplicates() && keys.to_set() == m.dom().filter(|k: Seq<char>| m[k].1) && ids
            == keys.map_values(|k: Seq<char>| m[k].0)
}

/// Registry of authenticated users. Tokens are kept only as their SHA-256
/// hex digest; each digest maps to a user ID and a VIP flag.
pub struct UserRegistry {
    accounts: Vec<Account>,
}

impl View for UserRegistry {
    type V = Map<Seq<char>, Registered>;

    closed spec fn view(&self) -> Map<Seq<char>, Registered> {
        accounts_map(self.accounts@)
    }
}

impl UserRegistry {
    #[verifier::type_invariant]
    spec fn inv(self) -> bool {
        distinct_hashes(self.accounts@)
    }

    /// Builds the registry that a parsed users file describes: every user is
    /// registered under the lower-cased token hash; a later user with the
    /// same hash replaces an earlier one.
    pub fn from_users_file(file: UsersFile) -> (r: Self)
        ensures
            r@ == users_map(file.users@),
            forall|i: int|
                0 <= i < file.users@.len() && is_ascii_chars(#[trigger] file.users@[i].token_hash@)
                    ==> unicode_lowercase(file.users@[i].token_hash@) == ascii_lowercase(
                    file.users@[i].token_hash@,
                ),
    {
        let users = file.users;
        let n = users.len();
        let mut accounts: Vec<Account> = Vec::new();
        for i in 0..n
            invariant
                n == users@.len(),
                distinct_hashes(accounts@),
                accounts_map(accounts@) == users_map(users@.take(i as int)),
                forall|a: int|
                    0 <= a < i && is_ascii_chars(#[trigger] users@[a].token_hash@) ==> unicode_lowercase(
                        users@[a].token_hash@,
                    ) == ascii_lowercase(users@[a].token_hash@),
        {
            let e = &users[i];
            let acc = Account {
                token_hash: str_to_lowercase(e.token_hash.as_str()),
                user_id: e.user_id.clone(),
                vip: e.vip,
            };
            upsert(&mut accounts, acc);
            assert(users@.take(i + 1).drop_last() =~= users@.take(i as int));
        }
        assert(users@.take(n as int) =~= users@);
        UserRegistry { accounts }
    }

    /// Index of the account registered under `hash`, if any.
    fn find(&self, hash: &String) -> (res: Option<usize>)
        ensures
            match res {
                Some(j) => j < self.accounts@.len() && self.accounts@[j as int].token_hash@ == hash@,
                None => forall|i: int|
                    0 <= i < self.accounts@.len() ==> #[trigger] self.accounts@[i].token_hash@
                        != hash@,
            },
    {
        let n = self.accounts.len();
        for j in 0..n
            invariant
                n == self.accounts@.len(),
                forall|i: int| 0 <= i < j ==> #[trigger] self.accounts@[i].token_hash@ != hash@,
        {
            if self.accounts[j].token_hash == *hash {
                return Some(j);
            }
        }
        None
    }

    /// Looks up a SHA-256 digest: the user ID registered under the digest's
    /// lower-case hex rendering, or `None` if there is none.
    pub fn lookup_digest(&self, digest: &[u8]) -> (res: Option<&str>)
        ensures
            res is Some <==> self@.contains_key(hex_lower(digest@)),
            res matches Some(u) ==> u@ == self@[hex_lower(digest@)].0,
    {
        proof {
            use_type_invariant(self);
            lemma_accounts_map(self.accounts@);
        }
        let hash = to_hex_lower(digest);
        match self.find(&hash) {
            Some(j) => {
                assert(self.accounts@[j as int].token_hash@ == hash@);
                Some(self.accounts[j].user_id.as_str())
            },
            None => {
                proof {
                    if self@.contains_key(hash@) {
                        let i = choose|i: int|
                            0 <= i < self.accounts@.len() && #[trigger] self.accounts@[i].token_hash@
                                == hash@;
                        assert(false);
                    }
                }
                None
            },
        }
    }

    /// Hashes `raw_token` with SHA-256 and looks it up in the registry:
    /// `Some(user_id)` if the token is known, `None` otherwise.
    pub fn authenticate(&self, raw_token: &str) -> (res: Option<&str>)
        ensures
            res is Some <==> self@.contains_key(token_key(raw_token@)),
            res matches Some(u) ==> u@ == self@[token_key(raw_token@)].0,
    {
        let digest = sha256_digest(raw_token.as_bytes());
        self.lookup_digest(digest.as_slice())
    }

    /// The IDs of all VIP users, each once, in no particular order.
    pub fn get_vip_users(&self) -> (res: Vec<String>)
        ensures
            lists_vip_users(self@, res@.map_values(|u: String| u@)),
    {
        proof {
            use_type_invariant(self);
            lemma_accounts_map(self.accounts@);
        }
        let ghost s = self.accounts@;
        let ghost m = self@;
        let n = self.accounts.len();
        let mut res: Vec<String> = Vec::new();
        let ghost mut keys: Seq<Seq<char>> = Seq::empty();
        let ghost mut idxs: Seq<int> = Seq::empty();
        for i in 0..n
            invariant
                n == s.len(),
                s == self.accounts@,
                m == accounts_map(s),
                distinct_hashes(s),
                forall|k: Seq<char>|
                    #[trigger] m.contains_key(k) <==> exists|a: int|
                        0 <= a < s.len() && #[trigger] s[a].token_hash@ == k,
                forall|a: int|
                    0 <= a < s.len() ==> m[#[trigger] s[a].token_hash@] == (s[a].user_id@, s[a].vip),
                keys.len() == res@.len(),
                idxs.len() == keys.len(),
                forall|p: int|
                    0 <= p < idxs.len() ==> 0 <= #[trigger] idxs[p] < i && s[idxs[p]].vip
                        && keys[p] == s[idxs[p]].token_hash@ && res@[p]@ == s[idxs[p]].user_id@,
                forall|p: int, q: int| 0 <= p < q < idxs.len() ==> idxs[p] < idxs[q],
                forall|a: int|
                    0 <= a < i && #[trigger] s[a].vip ==> exists|p: int|
                        0 <= p < idxs.len() && #[trigger] idxs[p] == a,
        {
            let ghost old_idxs = idxs;
            if self.accounts[i].vip {
                res.push(self.accounts[i].user_id.clone());
                proof {
                    keys = keys.push(s[i as int].token_hash@);
                    idxs = idxs.push(i as int);
                    assert(idxs[idxs.len() - 1] == i);
                }
            }
            proof {
                assert forall|a: int| 0 <= a < i + 1 && #[trigger] s[a].vip implies exists|p: int|
                    0 <= p < idxs.len() && #[trigger] idxs[p] == a by {
                    if a < i {
                        let p = choose|p: int| 0 <= p < old_idxs.len() && #[trigger] old_idxs[p] == a;
                        assert(idxs[p] == a);
                    } else {
                        assert(idxs[idxs.len() - 1] == a);
                    }
                }
            }
        }
        proof {
            let ids = res@.map_values(|u: String| u@);
            assert(keys.no_duplicates()) by {
                assert forall|p: int, q: int| 0 <= p < keys.len() && 0 <= q < keys.len() && p != q
                    implies keys[p] != keys[q] by {
                    if p < q {
                        assert(idxs[p] < idxs[q]);
                    } else {
                        assert(idxs[q] < idxs[p]);
                    }
                    assert(s[idxs[p]].token_hash@ != s[idxs[q]].token_hash@);
                }
            }
            let vip = m.dom().filter(|k: Seq<char>| m[k].1);
            assert forall|k: Seq<char>| #[trigger] keys.to_set().contains(k) <==> vip.contains(k) by {
                if keys.to_set().contains(k) {
                    let p = choose|p: int| 0 <= p < keys.len() && keys[p] == k;
                    assert(m[s[idxs[p]].token_hash@] == (s[idxs[p]].user_id@, s[idxs[p]].vip));
                }
                if vip.contains(k) {
                    let a = choose|a: int| 0 <= a < s.len() && #[trigger] s[a].token_hash@ == k;
                    assert(s[a].vip);
                    let p = choose|p: int| 0 <= p < idxs.len() && #[trigger] idxs[p] == a;
                    assert(keys[p] == k);
                }
            }
            assert(keys.to_set() =~= vip);
            assert forall|p: int| 0 <= p < ids.len() implies ids[p] == m[keys[p]].0 by {
                assert(m[s[idxs[p]].token_hash@] == (s[idxs[p]].user_id@, s[idxs[p]].vip));
            }
            assert(ids =~= keys.map_values(|k: Seq<char>| m[k].0));
        }
        res
    }

    /// An empty registry: every token is rejected.
    pub fn empty() -> (r: Self)
        ensures
            r@ == Map::<Seq<char>, Registered>::empty(),
    {
        UserRegistry { accounts: Vec::new() }
    }
}

/// An empty registry rejects every token: no token's key is registered.
pub proof fn law_empty_registry_rejects_every_token(r: UserRegistry, raw_token: Seq<char>)
    requires
        r@ == Map::<Seq<char>, Registered>::empty(),
    ensures
        !r@.contains_key(token_key(raw_token)),
{
}

/// A user listed in the users file is found under the lower-cased hash of
/// the entry, with the entry's ID and VIP flag, unless a later entry lists
/// the same lower-cased hash (the later entry wins).
pub proof fn law_listed_user_is_registered(users: Seq<UserEntry>, i: int)
    requires
        0 <= i < users.len(),
        forall|j: int|
            i < j < users.len() ==> unicode_lowercase(#[trigger] users[j].token_hash@)
                != unicode_lowercase(users[i].token_hash@),
    ensures
        users_map(users).contains_key(unicode_lowercase(users[i].token_hash@)),
        users_map(users)[unicode_lowercase(users[i].token_hash@)] == (users[i].user_id@, users[i].vip),
    decreases users.len(),
{
    if i < users.len() - 1 {
        let t = users.drop_last();
        assert forall|j: int| i < j < t.len() implies unicode_lowercase(#[trigger] t[j].token_hash@)
            != unicode_lowercase(t[i].token_hash@) by {
            assert(t[j] == users[j]);
        }
        assert(t[i] == users[i]);
        law_listed_user_is_registered(t, i);
        assert(unicode_lowercase(users[users.len() - 1].token_hash@) != unicode_lowercase(users[i].token_hash@));
    }
}

/// A token is known to the registry of a users file exactly when some
/// entry's lower-cased hash is the token's key.
pub proof fn law_token_known_iff_listed(users: Seq<UserEntry>, raw_token: Seq<char>)
    ensures
        users_map(users).contains_key(token_key(raw_token)) <==> exists|i: int|
            0 <= i < users.len() && unicode_lowercase(#[trigger] users[i].token_hash@) == token_key(raw_token),
    decreases users.len(),
{
    if users.len() > 0 {
        let t = users.drop_last();
        law_token_known_iff_listed(t, raw_token);
        if exists|i: int|
            0 <= i < t.len() && unicode_lowercase(#[trigger] t[i].token_hash@) == token_key(raw_token) {
            let i = choose|i: int|
                0 <= i < t.len() && unicode_lowercase(#[trigger] t[i].token_hash@) == token_key(raw_token);
            assert(users[i] == t[i]);
        }
        if exists|i: int|
            0 <= i < users.len() && unicode_lowercase(#[trigger] users[i].token_hash@) == token_key(raw_token) {
            let i = choose|i: int|
                0 <= i < users.len() && unicode_lowercase(#[trigger] users[i].token_hash@) == token_key(raw_token);
            if i < t.len() {
                assert(t[i] == users[i]);
            }
        }
    }
}

impl Clone for UserRegistry {
    /// A copy of the registry with the same users.
    fn clone(&self) -> (r: Self)
        ensures
            r@ == self@,
    {
        proof {
            use_type_invariant(self);
        }
        let n = self.accounts.len();
        let mut accounts: Vec<Account> = Vec::new();
        for i in 0..n
            invariant
                n == self.accounts@.len(),
                accounts@ == self.accounts@.take(i as int),
        {
            let a = &self.accounts[i];
            accounts.push(
                Account { token_hash: a.token_hash.clone(), user_id: a.user_id.clone(), vip: a.vip },
            );
            assert(accounts@ =~= self.accounts@.take(i + 1));
        }
        assert(self.accounts@.take(n as int) =~= self.accounts@);
        UserRegistry { accounts }
    }
}

} // verus!
