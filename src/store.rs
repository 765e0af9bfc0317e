//! The store of users and messages: registration and authentication with
//! case-insensitive names, an append-only message log, history and search.
//!
//! This is the in-memory state; writing it to durable storage, and the lock
//! that lets readers run side by side, belong to whoever owns the store.
use vstd::prelude::*;

use crate::protocol::StoredMessage;
use crate::ids::{generate_id, nanos_or_zero};
use crate::text::{
    contains, decimal_text, digits_of, hash_password, is_substring, lower_of, password_digest,
    to_lower,
};
use crate::timestamp::Timestamp;

verus! {

#[derive(Debug, Clone)]
pub struct User {
    pub id: String,
    pub username: String,
    pub password_hash: String,
    pub created_at: Timestamp,
}

impl User {
    /// A field-by-field copy.
    pub fn duplicate(&self) -> (r: User)
        ensures
            r == *self,
    {
        User {
            id: self.id.clone(),
            username: self.username.clone(),
            password_hash: self.password_hash.clone(),
            created_at: self.created_at,
        }
    }
}

/// Why a registration or a login was refused.
#[derive(Debug, Clone)]
pub enum StoreError {
    /// The name, compared without case, belongs to a registered user.
    AlreadyExists(String),
    /// No registered user has the name, compared without case.
    NotFound(String),
    /// The user exists and the password does not match.
    WrongPassword,
}

/// Some user's name equals `name` once both are folded to lowercase.
pub open spec fn name_taken(users: Seq<User>, name: Seq<char>) -> bool {
    exists|i: int| 0 <= i < users.len() && lower_of(#[trigger] users[i].username@) == lower_of(name)
}

/// No two users share a name, compared without case.
pub open spec fn names_unique(users: Seq<User>) -> bool {
    forall|i: int, j: int|
        0 <= i < users.len() && 0 <= j < users.len() && i != j ==> lower_of(
            #[trigger] users[i].username@,
        ) != lower_of(#[trigger] users[j].username@)
}

/// The user named `name` (without case) holds the digest of `password`.
pub open spec fn credentials_match(users: Seq<User>, name: Seq<char>, password: Seq<char>) -> bool {
    exists|i: int|
        0 <= i < users.len() && lower_of(#[trigger] users[i].username@) == lower_of(name)
            && users[i].password_hash@ == password_digest(password)
}

/// The most recent `limit` messages in order; all of them when `limit` is
/// zero or reaches the total.
pub open spec fn history_of(messages: Seq<StoredMessage>, limit: nat) -> Seq<StoredMessage> {
    if limit == 0 || limit >= messages.len() {
        messages
    } else {
        messages.subrange(messages.len() - limit, messages.len() as int)
    }
}

/// A message meets every search criterion that is given: an empty text and
/// an absent bound match everything.
pub open spec fn matches_criteria(
    m: StoredMessage,
    query: Seq<char>,
    username: Seq<char>,
    from: Option<Timestamp>,
    to: Option<Timestamp>,
) -> bool {
    &&& (query.len() == 0 || is_substring(lower_of(query), lower_of(m.content@)))
    &&& (username.len() == 0 || lower_of(m.username@) == lower_of(username))
    &&& match from {
        Some(f) => f.spec_le(m.timestamp),
        None => true,
    }
    &&& match to {
        Some(t) => m.timestamp.spec_le(t),
        None => true,
    }
}

/// The messages that meet the criteria, oldest first.
pub open spec fn search_result(
    messages: Seq<StoredMessage>,
    query: Seq<char>,
    username: Seq<char>,
    from: Option<Timestamp>,
    to: Option<Timestamp>,
) -> Seq<StoredMessage> {
    messages.filter(|m: StoredMessage| matches_criteria(m, query, username, from, to))
}

/// `users` after adding `u`: it takes the place of the user with the same
/// name (without case), or goes last.
pub open spec fn upsert_user(users: Seq<User>, u: User) -> Seq<User> {
    if name_taken(users, u.username@) {
        let i = choose|i: int|
            0 <= i < users.len() && lower_of(#[trigger] users[i].username@) == lower_of(
                u.username@,
            );
        users.update(i, u)
    } else {
        users.push(u)
    }
}

/// The users that a saved list gives, each one added in turn.
pub open spec fn restored_users(saved: Seq<User>) -> Seq<User>
    decreases saved.len(),
{
    if saved.len() == 0 {
        Seq::empty()
    } else {
        upsert_user(restored_users(saved.drop_last()), saved.last())
    }
}

/// Some user has the id `id`.
pub open spec fn id_in_use(users: Seq<User>, id: Seq<char>) -> bool {
    exists|i: int| 0 <= i < users.len() && (#[trigger] users[i]).id@ == id
}

/// The key the next message gets: one past the last key, or the message's
/// nanoseconds since the epoch (zero before the epoch) if those are larger.
pub open spec fn key_after(keys: Seq<u64>, t: Timestamp) -> int {
    let floor = if nanos_or_zero(t) > 0 {
        nanos_or_zero(t)
    } else {
        0
    };
    if keys.len() == 0 || keys.last() + 1 <= floor {
        floor
    } else {
        keys.last() + 1
    }
}

/// Another message can be given a key larger than all before it.
pub open spec fn can_append(keys: Seq<u64>) -> bool {
    keys.len() == 0 || keys.last() < u64::MAX
}

/// `m` is `msg` but for its id.
pub open spec fn same_but_id(m: StoredMessage, msg: StoredMessage) -> bool {
    &&& m.user_id == msg.user_id
    &&& m.username == msg.username
    &&& m.content == msg.content
    &&& m.timestamp == msg.timestamp
}

/// Each message's id is its key in decimal, and the keys strictly increase
/// along the log.
pub open spec fn ids_increasing(messages: Seq<StoredMessage>, keys: Seq<u64>) -> bool {
    &&& keys.len() == messages.len()
    &&& forall|i: int| 0 <= i < keys.len() ==> (#[trigger] messages[i]).id@ == digits_of(keys[i] as nat)
    &&& forall|i: int, j: int| 0 <= i < j < keys.len() ==> #[trigger] keys[i] < #[trigger] keys[j]
}

/// What a store holds: its users in order of registration, its message log,
/// and the key behind each message's id.
pub struct StoreView {
    pub users: Seq<User>,
    pub messages: Seq<StoredMessage>,
    pub keys: Seq<u64>,
}

/// `n` is `o` with `msg` appended to the log under the next key.
pub open spec fn appended(o: StoreView, n: StoreView, msg: StoredMessage) -> bool {
    let k = key_after(o.keys, msg.timestamp);
    &&& n.users == o.users
    &&& n.keys == o.keys.push(k as u64)
    &&& n.messages.len() == o.messages.len() + 1
    &&& n.messages.drop_last() == o.messages
    &&& same_but_id(n.messages.last(), msg)
    &&& n.messages.last().id@ == digits_of(k as nat)
    &&& msg.id@ == digits_of(k as nat) ==> n.messages.last() == msg
}

/// The keys the messages of a log get when appended in turn to an empty
/// store.
pub open spec fn replayed_keys(messages: Seq<StoredMessage>) -> Seq<u64>
    decreases messages.len(),
{
    if messages.len() == 0 {
        Seq::empty()
    } else {
        let before = replayed_keys(messages.drop_last());
        before.push(key_after(before, messages.last().timestamp) as u64)
    }
}

/// Every message's id is the key it gets when the messages before it are
/// appended in turn: the log is one that a store wrote.
pub open spec fn written_log(messages: Seq<StoredMessage>) -> bool {
    forall|i: int|
        0 <= i < messages.len() ==> (#[trigger] messages[i]).id@ == digits_of(
            (key_after(replayed_keys(messages.subrange(0, i)), messages[i].timestamp) as u64) as nat,
        )
}

/// A key of the replayed log is the key after those of the messages before it.
proof fn lemma_replayed_prefix(messages: Seq<StoredMessage>, i: int)
    requires
        0 <= i < messages.len(),
    ensures
        replayed_keys(messages).len() == messages.len(),
        replayed_keys(messages)[i] == key_after(replayed_keys(messages.subrange(0, i)), messages[i].timestamp) as u64,
    decreases messages.len(),
{
    let rest = messages.drop_last();
    if i == messages.len() - 1 {
        assert(rest =~= messages.subrange(0, i));
        if rest.len() > 0 {
            lemma_replayed_prefix(rest, rest.len() - 1);
        }
    } else {
        lemma_replayed_prefix(rest, i);
        assert(rest.subrange(0, i) =~= messages.subrange(0, i));
    }
}

/// A list of users with distinct names (without case) is restored as it is.
proof fn lemma_restore_unique(saved: Seq<User>)
    requires
        names_unique(saved),
    ensures
        restored_users(saved) == saved,
    decreases saved.len(),
{
    if saved.len() > 0 {
        let rest = saved.drop_last();
        assert forall|a: int, b: int|
            0 <= a < rest.len() && 0 <= b < rest.len() && a != b implies lower_of(
            #[trigger] rest[a].username@,
        ) != lower_of(#[trigger] rest[b].username@) by {
            assert(rest[a] == saved[a]);
            assert(rest[b] == saved[b]);
        }
        lemma_restore_unique(rest);
        let last = saved.len() - 1;
        if name_taken(rest, saved.last().username@) {
            let i = choose|i: int|
                0 <= i < rest.len() && lower_of(#[trigger] rest[i].username@) == lower_of(
                    saved.last().username@,
                );
            assert(saved[i] == rest[i]);
            assert(i != last);
        }
        assert(rest.push(saved.last()) =~= saved);
    }
}

struct Account {
    key: String,
    user: User,
}

pub struct Store {
    accounts: Vec<Account>,
    messages: Vec<StoredMessage>,
    keys: Vec<u64>,
}

impl View for Store {
    type V = StoreView;

    closed spec fn view(&self) -> StoreView {
        StoreView {
            users: self.accounts@.map_values(|a: Account| a.user),
            messages: self.messages@,
            keys: self.keys@,
        }
    }
}

impl Store {
    /// Each account's key is its user's name folded to lowercase, no two
    /// keys are equal, and message ids increase along the log.
    pub closed spec fn wf(&self) -> bool {
        &&& forall|i: int|
            0 <= i < self.accounts@.len() ==> (#[trigger] self.accounts@[i]).key@ == lower_of(
                self.accounts@[i].user.username@,
            )
        &&& names_unique(self@.users)
        &&& ids_increasing(self@.messages, self@.keys)
        &&& self@.keys == replayed_keys(self@.messages)
    }

    /// What a well-formed store guarantees: no two users share a name
    /// (without case), message ids strictly increase along the log, and the
    /// log is one that [`Store::restore`] gives back unchanged.
    pub proof fn lemma_wf(&self)
        requires
            self.wf(),
        ensures
            names_unique(self@.users),
            ids_increasing(self@.messages, self@.keys),
            written_log(self@.messages),
    {
        let m = self@.messages;
        assert forall|i: int| 0 <= i < m.len() implies (#[trigger] m[i]).id@ == digits_of(
            (key_after(replayed_keys(m.subrange(0, i)), m[i].timestamp) as u64) as nat,
        ) by {
            lemma_replayed_prefix(m, i);
        }
    }

    pub fn new() -> (s: Store)
        ensures
            s.wf(),
            s@.users == Seq::<User>::empty(),
            s@.messages == Seq::<StoredMessage>::empty(),
            s@.keys == Seq::<u64>::empty(),
    {
        let s = Store { accounts: Vec::new(), messages: Vec::new(), keys: Vec::new() };
        assert(s@.users =~= Seq::<User>::empty());
        s
    }

    /// The position of the account whose key is `key`, if any.
    fn find_key(&self, key: &String) -> (r: Option<usize>)
        requires
            self.wf(),
        ensures
            match r {
                Some(i) => i < self.accounts@.len() && self.accounts@[i as int].key@ == key@,
                None => forall|j: int|
                    0 <= j < self.accounts@.len() ==> (#[trigger] self.accounts@[j]).key@ != key@,
            },
    {
        let mut i: usize = 0;
        while i < self.accounts.len()
            invariant
                0 <= i <= self.accounts@.len(),
                forall|j: int| 0 <= j < i ==> (#[trigger] self.accounts@[j]).key@ != key@,
            decreases self.accounts@.len() - i,
        {
            if self.accounts[i].key == *key {
                return Some(i);
            }
            i = i + 1;
        }
        None
    }

    /// Registers a user with the given id and creation time.
    ///
    /// Fails with `AlreadyExists` exactly when the name, compared without
    /// case, is taken; the store is then unchanged. On success the new user,
    /// which keeps the name as written and the digest of the password, is
    /// appended to the users.
    pub fn register_user_at(
        &mut self,
        username: &str,
        password: &str,
        id: String,
        created_at: Timestamp,
    ) -> (r: Result<User, StoreError>)
        requires
            old(self).wf(),
        ensures
            final(self).wf(),
            final(self)@.messages == old(self)@.messages,
            final(self)@.keys == old(self)@.keys,
            r is Ok <==> !name_taken(old(self)@.users, username@),
            match r {
                Ok(u) => {
                    &&& u.id == id
                    &&& u.username@ == username@
                    &&& u.password_hash@ == password_digest(password@)
                    &&& u.created_at == created_at
                    &&& final(self)@.users == old(self)@.users.push(u)
                },
                Err(e) => {
                    &&& e matches StoreError::AlreadyExists(n) && n@ == username@
                    &&& final(self)@.users == old(self)@.users
                },
            },
    {
        let key = to_lower(username);
        let ghost users = self@.users;
        match self.find_key(&key) {
            Some(i) => {
                assert(lower_of(users[i as int].username@) == lower_of(username@));
                Err(StoreError::AlreadyExists(username.to_owned()))
            },
            None => {
                proof {
                    assert forall|j: int| 0 <= j < users.len() implies lower_of(
                        #[trigger] users[j].username@,
                    ) != lower_of(username@) by {
                        assert(self.accounts@[j].key@ != key@);
                    }
                }
                let user = User {
                    id,
                    username: username.to_owned(),
                    password_hash: hash_password(password),
                    created_at,
                };
                let account = Account { key, user: user.duplicate() };
                self.accounts.push(account);
                assert(self@.users =~= users.push(user));
                Ok(user)
            },
        }
    }

    /// Whether some user has the id `id`.
    fn id_taken(&self, id: &String) -> (r: bool)
        ensures
            r == id_in_use(self@.users, id@),
    {
        let mut i: usize = 0;
        while i < self.accounts.len()
            invariant
                0 <= i <= self.accounts@.len(),
                forall|j: int| 0 <= j < i ==> (#[trigger] self.accounts@[j]).user.id@ != id@,
            decreases self.accounts@.len() - i,
        {
            if self.accounts[i].user.id == *id {
                assert(self@.users[i as int].id@ == id@);
                return true;
            }
            i = i + 1;
        }
        proof {
            if id_in_use(self@.users, id@) {
                let j = choose|j: int| 0 <= j < self@.users.len() && (#[trigger] self@.users[j]).id@ == id@;
                assert(self.accounts@[j].user.id@ != id@);
            }
        }
        false
    }

    /// `id`, or, if a user already has it, `id` with as many `-` appended
    /// as it takes to make it unused.
    fn fresh_id(&self, id: String) -> (r: String)
        ensures
            !id_in_use(self@.users, r@),
            r@.len() >= id@.len(),
            r@.subrange(0, id@.len() as int) == id@,
    {
        // The longest id in use, in characters: anything longer is free.
        let mut longest: usize = 0;
        let mut i: usize = 0;
        while i < self.accounts.len()
            invariant
                0 <= i <= self.accounts@.len(),
                forall|j: int| 0 <= j < i ==> (#[trigger] self.accounts@[j]).user.id@.len() <= longest,
            decreases self.accounts@.len() - i,
        {
            let n = self.accounts[i].user.id.as_str().unicode_len();
            if n > longest {
                longest = n;
            }
            i = i + 1;
        }
        let mut r = id;
        let ghost start = r@;
        while self.id_taken(&r)
            invariant
                forall|j: int| 0 <= j < self@.users.len() ==> (#[trigger] self@.users[j]).id@.len() <= longest,
                r@.len() >= start.len(),
                r@.subrange(0, start.len() as int) == start,
            decreases longest + 1 - r@.len(),
        {
            proof {
                let j = choose|j: int| 0 <= j < self@.users.len() && (#[trigger] self@.users[j]).id@ == r@;
                assert(self.accounts@[j].user == self@.users[j]);
            }
            let ghost prev = r@;
            r.append("-");
            proof {
                reveal_strlit("-");
                assert(r@.subrange(0, start.len() as int) =~= prev.subrange(0, start.len() as int));
            }
        }
        r
    }

    /// Registers a user under a fresh id, created now; see
    /// [`Store::register_user_at`] for when it succeeds. No other user has
    /// the new user's id.
    pub fn register_user(&mut self, username: &str, password: &str) -> (r: Result<User, StoreError>)
        requires
            old(self).wf(),
        ensures
            final(self).wf(),
            final(self)@.messages == old(self)@.messages,
            final(self)@.keys == old(self)@.keys,
            r is Ok <==> !name_taken(old(self)@.users, username@),
            match r {
                Ok(u) => {
                    &&& u.username@ == username@
                    &&& u.password_hash@ == password_digest(password@)
                    &&& !id_in_use(old(self)@.users, u.id@)
                    &&& final(self)@.users == old(self)@.users.push(u)
                },
                Err(e) => {
                    &&& e matches StoreError::AlreadyExists(n) && n@ == username@
                    &&& final(self)@.users == old(self)@.users
                },
            },
    {
        let id = self.fresh_id(generate_id());
        let created_at = crate::timestamp::now();
        self.register_user_at(username, password, id, created_at)
    }

    /// Checks a name and password.
    ///
    /// Succeeds exactly when the user named `username` (without case) holds
    /// the digest of `password`, and returns that user; fails with `NotFound`
    /// when no user has the name, and with `WrongPassword` otherwise.
    pub fn authenticate(&self, username: &str, password: &str) -> (r: Result<User, StoreError>)
        requires
            self.wf(),
        ensures
            r is Ok <==> credentials_match(self@.users, username@, password@),
            r is Err && r->Err_0 is NotFound <==> !name_taken(self@.users, username@),
            match r {
                Ok(u) => self@.users.contains(u) && lower_of(u.username@) == lower_of(username@),
                Err(StoreError::NotFound(n)) => n@ == username@,
                Err(StoreError::WrongPassword) => true,
                Err(StoreError::AlreadyExists(_)) => false,
            },
    {
        let key = to_lower(username);
        let ghost users = self@.users;
        match self.find_key(&key) {
            None => {
                proof {
                    assert forall|j: int| 0 <= j < users.len() implies lower_of(
                        #[trigger] users[j].username@,
                    ) != lower_of(username@) by {
                        assert(self.accounts@[j].key@ != key@);
                    }
                }
                Err(StoreError::NotFound(username.to_owned()))
            },
            Some(i) => {
                let user = &self.accounts[i].user;
                let digest = hash_password(password);
                assert(users[i as int] == *user);
                if user.password_hash == digest {
                    assert(users.contains(*user));
                    Ok(user.duplicate())
                } else {
                    proof {
                        assert forall|j: int|
                            0 <= j < users.len() && lower_of(#[trigger] users[j].username@)
                                == lower_of(username@) implies users[j].password_hash@
                            != password_digest(password@) by {
                            assert(j == i);
                        }
                    }
                    Err(StoreError::WrongPassword)
                }
            },
        }
    }

    /// Removes the user named `username` (without case), if there is one;
    /// used to take back a registration that could not be made durable.
    pub fn remove_user(&mut self, username: &str)
        requires
            old(self).wf(),
        ensures
            final(self).wf(),
            final(self)@.messages == old(self)@.messages,
            final(self)@.keys == old(self)@.keys,
            !name_taken(old(self)@.users, username@) ==> final(self)@.users == old(self)@.users,
            name_taken(old(self)@.users, username@) ==> exists|i: int|
                0 <= i < old(self)@.users.len() && lower_of(
                    #[trigger] old(self)@.users[i].username@,
                ) == lower_of(username@) && final(self)@.users == old(self)@.users.remove(i),
    {
        let key = to_lower(username);
        let ghost users = self@.users;
        match self.find_key(&key) {
            None => {
                proof {
                    assert forall|j: int| 0 <= j < users.len() implies lower_of(
                        #[trigger] users[j].username@,
                    ) != lower_of(username@) by {
                        assert(self.accounts@[j].key@ != key@);
                    }
                }
            },
            Some(i) => {
                let ghost before = self.accounts@;
                self.accounts.remove(i);
                assert(self@.users =~= users.remove(i as int));
                assert(lower_of(users[i as int].username@) == lower_of(username@));
                assert forall|a: int, b: int|
                    0 <= a < self@.users.len() && 0 <= b < self@.users.len() && a != b implies lower_of(
                    #[trigger] self@.users[a].username@,
                ) != lower_of(#[trigger] self@.users[b].username@) by {
                    let a0 = if a < i { a } else { a + 1 };
                    let b0 = if b < i { b } else { b + 1 };
                    assert(self@.users[a] == users[a0]);
                    assert(self@.users[b] == users[b0]);
                }
            },
        }
    }

    /// Appends a message to the log under the next key (see [`key_after`]),
    /// its id set to that key in decimal, so ids strictly increase along the
    /// log. Returns false, changing nothing, when no larger key is left.
    pub fn save_message(&mut self, msg: StoredMessage) -> (saved: bool)
        requires
            old(self).wf(),
        ensures
            final(self).wf(),
            saved == can_append(old(self)@.keys),
            saved ==> appended(old(self)@, final(self)@, msg),
            !saved ==> final(self)@ == old(self)@,
    {
        let floor: u64 = match msg.timestamp.nanos_since_epoch() {
            Some(n) => if n > 0 {
                n as u64
            } else {
                0
            },
            None => 0,
        };
        let n = self.keys.len();
        let key: u64 = if n == 0 {
            floor
        } else {
            let last = self.keys[n - 1];
            if last == u64::MAX {
                return false;
            }
            if last + 1 <= floor {
                floor
            } else {
                last + 1
            }
        };
        let ghost old_view = self@;
        let id = decimal_text(key as i128);
        let stored = if msg.id == id {
            msg
        } else {
            StoredMessage {
                id,
                user_id: msg.user_id,
                username: msg.username,
                content: msg.content,
                timestamp: msg.timestamp,
            }
        };
        self.messages.push(stored);
        self.keys.push(key);
        assert(self@.users =~= old_view.users);
        assert(self@.messages.drop_last() =~= old_view.messages);
        assert(self@.keys == replayed_keys(self@.messages));
        assert forall|i: int, j: int| 0 <= i < j < self.keys@.len() implies #[trigger] self.keys@[i]
            < #[trigger] self.keys@[j] by {
            if j == n {
                if i < n - 1 {
                    assert(old_view.keys[i] < old_view.keys[n - 1]);
                }
            }
        }
        true
    }

    /// The most recent `limit` messages in chronological order; the whole
    /// log when `limit` is zero or at least the number of messages.
    pub fn get_history(&self, limit: usize) -> (r: Vec<StoredMessage>)
        ensures
            r@ == history_of(self@.messages, limit as nat),
    {
        let total = self.messages.len();
        let start: usize = if limit == 0 || limit >= total {
            0
        } else {
            total - limit
        };
        let mut out: Vec<StoredMessage> = Vec::new();
        let mut i: usize = start;
        while i < total
            invariant
                start <= i <= total,
                total == self.messages@.len(),
                out@ == self.messages@.subrange(start as int, i as int),
            decreases total - i,
        {
            out.push(self.messages[i].duplicate());
            i = i + 1;
            assert(out@ =~= self.messages@.subrange(start as int, i as int));
        }
        assert(out@ =~= history_of(self@.messages, limit as nat));
        out
    }

    /// The messages that meet every given criterion, oldest first: `query`
    /// occurs in the content and `username` equals the author's name, both
    /// without case; `from` and `to` bound the timestamp, inclusive. Empty
    /// texts and absent bounds match everything.
    pub fn search(
        &self,
        query: &str,
        username: &str,
        from: Option<Timestamp>,
        to: Option<Timestamp>,
    ) -> (r: Vec<StoredMessage>)
        ensures
            r@ == search_result(self@.messages, query@, username@, from, to),
    {
        let q = to_lower(query);
        let u = to_lower(username);
        let mut out: Vec<StoredMessage> = Vec::new();
        let mut i: usize = 0;
        while i < self.messages.len()
            invariant
                0 <= i <= self.messages@.len(),
                q@ == lower_of(query@),
                u@ == lower_of(username@),
                out@ == search_result(self.messages@.subrange(0, i as int), query@, username@, from, to),
            decreases self.messages@.len() - i,
        {
            let m = &self.messages[i];
            let mut keep = true;
            if !query.is_empty() {
                let content = to_lower(m.content.as_str());
                if !contains(content.as_str(), q.as_str()) {
                    keep = false;
                }
            }
            if !username.is_empty() {
                let author = to_lower(m.username.as_str());
                if !(author == u) {
                    keep = false;
                }
            }
            match from {
                Some(f) => {
                    if !f.le(&m.timestamp) {
                        keep = false;
                    }
                },
                None => {},
            }
            match to {
                Some(t) => {
                    if !m.timestamp.le(&t) {
                        keep = false;
                    }
                },
                None => {},
            }
            assert(keep == matches_criteria(*m, query@, username@, from, to));
            let ghost pre = self.messages@.subrange(0, i + 1);
            let ghost pred = |x: StoredMessage| matches_criteria(x, query@, username@, from, to);
            assert(pre.drop_last() =~= self.messages@.subrange(0, i as int));
            assert(pre.last() == *m);
            proof {
                reveal(Seq::filter);
            }
            assert(pre.filter(pred) == if pred(*m) {
                pre.drop_last().filter(pred).push(*m)
            } else {
                pre.drop_last().filter(pred)
            });
            if keep {
                out.push(m.duplicate());
            }
            i = i + 1;
        }
        assert(self.messages@.subrange(0, self.messages@.len() as int) =~= self.messages@);
        out
    }

    /// Adds a user as it was saved: it takes the place of a user with the
    /// same name (without case), or goes last.
    fn put_user(&mut self, user: User)
        requires
            old(self).wf(),
        ensures
            final(self).wf(),
            final(self)@.messages == old(self)@.messages,
            final(self)@.keys == old(self)@.keys,
            final(self)@.users == upsert_user(old(self)@.users, user),
    {
        let key = to_lower(user.username.as_str());
        let ghost users = self@.users;
        match self.find_key(&key) {
            None => {
                proof {
                    assert forall|j: int| 0 <= j < users.len() implies lower_of(
                        #[trigger] users[j].username@,
                    ) != lower_of(user.username@) by {
                        assert(self.accounts@[j].key@ != key@);
                    }
                }
                self.accounts.push(Account { key, user });
                assert(self@.users =~= users.push(user));
            },
            Some(i) => {
                assert(lower_of(users[i as int].username@) == lower_of(user.username@));
                let ghost c = choose|c: int|
                    0 <= c < users.len() && lower_of(#[trigger] users[c].username@) == lower_of(
                        user.username@,
                    );
                assert(c == i);
                self.accounts[i] = Account { key, user };
                assert(self@.users =~= users.update(i as int, user));
                assert forall|a: int, b: int|
                    0 <= a < self@.users.len() && 0 <= b < self@.users.len() && a != b implies lower_of(
                    #[trigger] self@.users[a].username@,
                ) != lower_of(#[trigger] self@.users[b].username@) by {
                    if a != i && b != i {
                        assert(self@.users[a] == users[a]);
                        assert(self@.users[b] == users[b]);
                    } else if a == i {
                        assert(self@.users[b] == users[b]);
                    } else {
                        assert(self@.users[a] == users[a]);
                    }
                }
            },
        }
    }

    /// Rebuilds a store from saved users and messages. The users are added
    /// in turn, a later one taking the place of an earlier one with the same
    /// name (without case). The messages are appended in turn as
    /// [`Store::save_message`] appends them, so a log that this store wrote
    /// comes back unchanged, ids included; all of them come back unless
    /// there are more than `2^63`.
    pub fn restore(saved_users: Vec<User>, saved_messages: Vec<StoredMessage>) -> (s: Store)
        ensures
            s.wf(),
            s@.users == restored_users(saved_users@),
            names_unique(saved_users@) ==> s@.users == saved_users@,
            written_log(saved_messages@) && saved_messages@.len() < 0x8000_0000_0000_0000
                ==> s@.messages == saved_messages@,
            s@.messages.len() <= saved_messages@.len(),
            saved_messages@.len() < 0x8000_0000_0000_0000 ==> s@.messages.len()
                == saved_messages@.len(),
            forall|i: int|
                0 <= i < s@.messages.len() ==> same_but_id(
                    #[trigger] s@.messages[i],
                    saved_messages@[i],
                ),
    {
        let mut s = Store::new();
        let ghost all = saved_users@;
        let mut i: usize = 0;
        while i < saved_users.len()
            invariant
                0 <= i <= all.len(),
                saved_users@ == all,
                s.wf(),
                s@.messages == Seq::<StoredMessage>::empty(),
                s@.keys == Seq::<u64>::empty(),
                s@.users == restored_users(all.subrange(0, i as int)),
            decreases all.len() - i,
        {
            let u = saved_users[i].duplicate();
            assert(all.subrange(0, i + 1).drop_last() =~= all.subrange(0, i as int));
            s.put_user(u);
            i = i + 1;
        }
        assert(all.subrange(0, all.len() as int) =~= all);
        proof {
            if names_unique(all) {
                lemma_restore_unique(all);
            }
        }
        let ghost users = s@.users;
        let ghost msgs = saved_messages@;
        assert(msgs.subrange(0, 0) =~= Seq::<StoredMessage>::empty());
        let mut j: usize = 0;
        while j < saved_messages.len()
            invariant
                0 <= j <= msgs.len(),
                saved_messages@ == msgs,
                s.wf(),
                s@.users == users,
                s@.messages.len() <= j,
                s@.messages.len() < j ==> !can_append(s@.keys),
                j < 0x8000_0000_0000_0000 ==> s@.messages.len() == j,
                written_log(msgs) && j < 0x8000_0000_0000_0000 ==> s@.messages == msgs.subrange(
                    0,
                    j as int,
                ),
                s@.keys.len() > 0 ==> s@.keys.last() <= 0x7fff_ffff_ffff_ffff + s@.keys.len() - 1,
                forall|k: int| 0 <= k < s@.messages.len() ==> same_but_id(#[trigger] s@.messages[k], msgs[k]),
            decreases msgs.len() - j,
        {
            let ghost before = s@;
            let m = saved_messages[j].duplicate();
            let saved = s.save_message(m);
            proof {
                if j < 0x8000_0000_0000_0000 {
                    assert(can_append(before.keys));
                }
                if saved && written_log(msgs) && j < 0x8000_0000_0000_0000 {
                    let k = key_after(before.keys, msgs[j as int].timestamp);
                    assert(before.keys == replayed_keys(msgs.subrange(0, j as int)));
                    assert(k <= u64::MAX);
                    assert(msgs[j as int].id@ == digits_of(k as nat));
                    assert(s@.messages =~= msgs.subrange(0, j + 1));
                }
                if saved {
                    assert(before.messages.len() == j);
                    assert(s@.keys.last() == key_after(before.keys, msgs[j as int].timestamp));
                    assert forall|k: int| 0 <= k < s@.messages.len() implies same_but_id(
                        #[trigger] s@.messages[k],
                        msgs[k],
                    ) by {
                        if k < before.messages.len() {
                            assert(s@.messages[k] == before.messages[k]);
                        } else {
                            assert(before.messages.len() == j);
                        }
                    }
                }
            }
            j = j + 1;
        }
        assert(msgs.subrange(0, msgs.len() as int) =~= msgs);
        s
    }

    /// A copy of the users, in order of registration.
    pub fn users(&self) -> (r: Vec<User>)
        ensures
            r@ == self@.users,
    {
        let mut out: Vec<User> = Vec::new();
        let mut i: usize = 0;
        while i < self.accounts.len()
            invariant
                0 <= i <= self.accounts@.len(),
                out@ == self@.users.subrange(0, i as int),
            decreases self.accounts@.len() - i,
        {
            out.push(self.accounts[i].user.duplicate());
            i = i + 1;
            assert(out@ =~= self@.users.subrange(0, i as int));
        }
        assert(out@ =~= self@.users);
        out
    }
}

/// The outcome of a run of registrations, each attempt given as the user it
/// would create: the users afterwards and how many attempts succeeded. As
/// [`Store::register_user_at`] does, an attempt succeeds exactly when its
/// name is free, and a success appends the user.
pub open spec fn replay_registrations(users: Seq<User>, attempts: Seq<User>) -> (Seq<User>, nat)
    decreases attempts.len(),
{
    if attempts.len() == 0 {
        (users, 0)
    } else {
        let (before, n) = replay_registrations(users, attempts.drop_last());
        let u = attempts.last();
        if name_taken(before, u.username@) {
            (before, n)
        } else {
            (before.push(u), n + 1)
        }
    }
}

/// Of any run of registrations under case variants of one name, at most one
/// succeeds, none when the name was taken to begin with; after the run the
/// name is taken, so every later registration of a variant fails.
pub proof fn lemma_one_registration_per_name(users: Seq<User>, attempts: Seq<User>, name: Seq<char>)
    requires
        forall|i: int|
            0 <= i < attempts.len() ==> lower_of(#[trigger] attempts[i].username@) == lower_of(name),
    ensures
        replay_registrations(users, attempts).1 <= 1,
        name_taken(users, name) ==> replay_registrations(users, attempts).1 == 0,
        attempts.len() > 0 ==> name_taken(replay_registrations(users, attempts).0, name),
    decreases attempts.len(),
{
    if attempts.len() > 0 {
        let rest = attempts.drop_last();
        lemma_one_registration_per_name(users, rest, name);
        let (before, n) = replay_registrations(users, rest);
        let u = attempts.last();
        assert(lower_of(u.username@) == lower_of(name));
        if name_taken(before, name) {
            let i = choose|i: int|
                0 <= i < before.len() && lower_of(#[trigger] before[i].username@) == lower_of(name);
            assert(name_taken(before, u.username@));
        } else {
            assert(!name_taken(before, u.username@));
            assert(rest.len() == 0 || name_taken(before, name));
            assert(before.push(u)[before.len() as int] == u);
            assert(name_taken(before.push(u), name));
            if name_taken(users, name) {
                assert(rest.len() > 0);
            }
        }
    }
}

/// Once a user has registered with password `registered`, logging in under
/// any case variant of the name succeeds exactly for passwords with the same
/// digest; under a name nobody registered, logging in never succeeds.
pub proof fn lemma_login_matches_registration(
    users: Seq<User>,
    u: User,
    registered: Seq<char>,
    name: Seq<char>,
    password: Seq<char>,
)
    requires
        names_unique(users),
        users.contains(u),
        u.password_hash@ == password_digest(registered),
    ensures
        lower_of(name) == lower_of(u.username@) ==> (credentials_match(users, name, password)
            <==> password_digest(password) == password_digest(registered)),
        !name_taken(users, name) ==> !credentials_match(users, name, password),
{
    let k = choose|k: int| 0 <= k < users.len() && users[k] == u;
    if lower_of(name) == lower_of(u.username@) {
        if credentials_match(users, name, password) {
            let i = choose|i: int|
                0 <= i < users.len() && lower_of(#[trigger] users[i].username@) == lower_of(name)
                    && users[i].password_hash@ == password_digest(password);
            assert(i == k);
        }
        if password_digest(password) == password_digest(registered) {
            assert(lower_of(users[k].username@) == lower_of(name));
        }
    }
}

/// With names unique (without case), the user a login returns is the user
/// that registered under that name: same id, name as written, digest and
/// creation time.
pub proof fn lemma_login_returns_registered_user(users: Seq<User>, registered: User, u: User)
    requires
        names_unique(users),
        users.contains(registered),
        users.contains(u),
        lower_of(u.username@) == lower_of(registered.username@),
    ensures
        u == registered,
{
    let i = choose|i: int| 0 <= i < users.len() && users[i] == registered;
    let j = choose|j: int| 0 <= j < users.len() && users[j] == u;
    if i != j {
        assert(lower_of(users[i].username@) != lower_of(users[j].username@));
    }
}

/// History returns the last `n` messages in order when `n` is below the
/// total, and the whole log for zero or for the total.
pub proof fn lemma_history_windows(messages: Seq<StoredMessage>, n: nat)
    ensures
        history_of(messages, 0) == messages,
        history_of(messages, messages.len()) == messages,
        0 < n < messages.len() ==> history_of(messages, n).len() == n && forall|j: int|
            0 <= j < n ==> #[trigger] history_of(messages, n)[j] == messages[messages.len() - n + j],
{
}

/// The search criteria combine by conjunction: a message matches them all
/// exactly when it matches each one given alone.
pub proof fn lemma_criteria_conjunction(
    m: StoredMessage,
    query: Seq<char>,
    username: Seq<char>,
    from: Option<Timestamp>,
    to: Option<Timestamp>,
)
    ensures
        matches_criteria(m, query, username, from, to) <==> {
            &&& matches_criteria(m, query, Seq::empty(), None, None)
            &&& matches_criteria(m, Seq::empty(), username, None, None)
            &&& matches_criteria(m, Seq::empty(), Seq::empty(), from, None)
            &&& matches_criteria(m, Seq::empty(), Seq::empty(), None, to)
        },
{
}

} // verus!
