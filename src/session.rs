//! The rules of one connection's session, and the state the server shares
//! between sessions: the store and the registry of who is online.
//!
//! A session starts unauthenticated and becomes authenticated on a
//! successful registration or login. Each decoded request is handed to
//! [`ServerState::dispatch`], which decides the effects; the caller carries
//! out the returned [`Action`]s (replies to this connection, notices and
//! chat lines through the hub, persistence jobs).
use vstd::prelude::*;

use crate::ids::{message_id, nanos_or_zero};
use crate::protocol::{
    AuthPayload, BroadcastPayload, ChatPayload, HistoryPayload, ResponseData, ResponsePayload,
    SearchPayload, StoredMessage, UserInfo,
};
use crate::store::{
    credentials_match, history_of, name_taken, search_result, Store, StoreError, StoreView, User,
};
use crate::text::{decimal_of, decimal_text, quoted, quoted_of};
use crate::timestamp::{now, Timestamp};

verus! {

/// Who a session is logged in as.
#[derive(Debug, Clone)]
pub struct Identity {
    pub user_id: String,
    pub username: String,
}

/// One connection's session state.
pub struct Session {
    pub conn_id: String,
    pub identity: Option<Identity>,
}

impl Session {
    pub fn new(conn_id: String) -> (s: Session)
        ensures
            s.conn_id == conn_id,
            s.identity is None,
    {
        Session { conn_id, identity: None }
    }

    pub fn is_authenticated(&self) -> (r: bool)
        ensures
            r == self.identity is Some,
    {
        self.identity.is_some()
    }

    /// The user id and name this session is logged in as.
    pub fn get_identity(&self) -> (r: Option<Identity>)
        ensures
            r == self.identity,
    {
        match &self.identity {
            Some(i) => Some(Identity { user_id: i.user_id.clone(), username: i.username.clone() }),
            None => None,
        }
    }
}

/// A user shown as online, and the connection that logged them in.
#[derive(Debug, Clone)]
pub struct OnlineEntry {
    pub user_id: String,
    pub username: String,
    pub conn_id: String,
}

impl OnlineEntry {
    /// A field-by-field copy.
    pub fn duplicate(&self) -> (r: OnlineEntry)
        ensures
            r == *self,
    {
        OnlineEntry {
            user_id: self.user_id.clone(),
            username: self.username.clone(),
            conn_id: self.conn_id.clone(),
        }
    }
}

/// No two entries share a user id.
pub open spec fn user_ids_unique(entries: Seq<OnlineEntry>) -> bool {
    forall|i: int, j: int|
        0 <= i < entries.len() && 0 <= j < entries.len() && i != j ==> (#[trigger] entries[i]).user_id@
            != (#[trigger] entries[j]).user_id@
}

/// Some entry is for the user `user_id`.
pub open spec fn is_online(entries: Seq<OnlineEntry>, user_id: Seq<char>) -> bool {
    exists|i: int| 0 <= i < entries.len() && (#[trigger] entries[i]).user_id@ == user_id
}

/// The entries after `e` is recorded: it takes the place of the entry for
/// the same user (a later login supersedes an earlier one), or goes last.
pub open spec fn online_put(entries: Seq<OnlineEntry>, e: OnlineEntry) -> Seq<OnlineEntry> {
    if is_online(entries, e.user_id@) {
        let i = choose|i: int| 0 <= i < entries.len() && (#[trigger] entries[i]).user_id@ == e.user_id@;
        entries.update(i, e)
    } else {
        entries.push(e)
    }
}

/// The entries after connection `conn_id` lets go of user `user_id`: the
/// entry goes only if that connection is the one that holds it.
pub open spec fn online_release(
    entries: Seq<OnlineEntry>,
    user_id: Seq<char>,
    conn_id: Seq<char>,
) -> Seq<OnlineEntry> {
    if is_online(entries, user_id) {
        let i = choose|i: int| 0 <= i < entries.len() && (#[trigger] entries[i]).user_id@ == user_id;
        if entries[i].conn_id@ == conn_id {
            entries.remove(i)
        } else {
            entries
        }
    } else {
        entries
    }
}

/// The registry of users who are online, one entry per user id.
pub struct OnlineRegistry {
    entries: Vec<OnlineEntry>,
}

impl View for OnlineRegistry {
    type V = Seq<OnlineEntry>;

    closed spec fn view(&self) -> Seq<OnlineEntry> {
        self.entries@
    }
}

impl OnlineRegistry {
    pub open spec fn wf(&self) -> bool {
        user_ids_unique(self@)
    }

    pub fn new() -> (r: OnlineRegistry)
        ensures
            r.wf(),
            r@ == Seq::<OnlineEntry>::empty(),
    {
        OnlineRegistry { entries: Vec::new() }
    }

    fn find(&self, user_id: &String) -> (r: Option<usize>)
        ensures
            match r {
                Some(i) => i < self@.len() && self@[i as int].user_id@ == user_id@,
                None => !is_online(self@, user_id@),
            },
    {
        let mut i: usize = 0;
        while i < self.entries.len()
            invariant
                0 <= i <= self.entries@.len(),
                forall|j: int| 0 <= j < i ==> (#[trigger] self.entries@[j]).user_id@ != user_id@,
            decreases self.entries@.len() - i,
        {
            if self.entries[i].user_id == *user_id {
                return Some(i);
            }
            i = i + 1;
        }
        None
    }

    /// Records `e`, superseding an entry for the same user.
    pub fn put(&mut self, e: OnlineEntry)
        requires
            old(self).wf(),
        ensures
            final(self).wf(),
            final(self)@ == online_put(old(self)@, e),
    {
        let ghost entries = self@;
        match self.find(&e.user_id) {
            Some(i) => {
                let ghost c = choose|c: int|
                    0 <= c < entries.len() && (#[trigger] entries[c]).user_id@ == e.user_id@;
                assert(c == i);
                self.entries[i] = e;
                assert(self@ =~= entries.update(i as int, e));
                assert forall|a: int, b: int|
                    0 <= a < self@.len() && 0 <= b < self@.len() && a != b implies (#[trigger] self@[a]).user_id@
                    != (#[trigger] self@[b]).user_id@ by {
                    if a != i {
                        assert(self@[a] == entries[a]);
                    }
                    if b != i {
                        assert(self@[b] == entries[b]);
                    }
                }
            },
            None => {
                self.entries.push(e);
                assert(self@ =~= entries.push(e));
                assert forall|a: int, b: int|
                    0 <= a < self@.len() && 0 <= b < self@.len() && a != b implies (#[trigger] self@[a]).user_id@
                    != (#[trigger] self@[b]).user_id@ by {
                    if a < entries.len() {
                        assert(self@[a] == entries[a]);
                    }
                    if b < entries.len() {
                        assert(self@[b] == entries[b]);
                    }
                }
            },
        }
    }

    /// Lets connection `conn_id` go of user `user_id`: the entry is removed
    /// only if that connection holds it.
    pub fn release(&mut self, user_id: &String, conn_id: &String)
        requires
            old(self).wf(),
        ensures
            final(self).wf(),
            final(self)@ == online_release(old(self)@, user_id@, conn_id@),
    {
        let ghost entries = self@;
        match self.find(user_id) {
            Some(i) => {
                let ghost c = choose|c: int|
                    0 <= c < entries.len() && (#[trigger] entries[c]).user_id@ == user_id@;
                assert(c == i);
                if self.entries[i].conn_id == *conn_id {
                    self.entries.remove(i);
                    assert(self@ =~= entries.remove(i as int));
                    assert forall|a: int, b: int|
                        0 <= a < self@.len() && 0 <= b < self@.len() && a != b implies (
                        #[trigger] self@[a]).user_id@ != (#[trigger] self@[b]).user_id@ by {
                        let a0 = if a < i { a } else { a + 1 };
                        let b0 = if b < i { b } else { b + 1 };
                        assert(self@[a] == entries[a0]);
                        assert(self@[b] == entries[b0]);
                    }
                }
            },
            None => {},
        }
    }

    /// The users online, in registry order.
    pub fn snapshot(&self) -> (r: Vec<UserInfo>)
        ensures
            r@.len() == self@.len(),
            forall|i: int|
                0 <= i < r@.len() ==> (#[trigger] r@[i]).user_id == self@[i].user_id
                    && r@[i].username == self@[i].username,
    {
        let mut out: Vec<UserInfo> = Vec::new();
        let mut i: usize = 0;
        while i < self.entries.len()
            invariant
                0 <= i <= self.entries@.len(),
                out@.len() == i,
                forall|j: int|
                    0 <= j < i ==> (#[trigger] out@[j]).user_id == self.entries@[j].user_id
                        && out@[j].username == self.entries@[j].username,
            decreases self.entries@.len() - i,
        {
            let e = &self.entries[i];
            out.push(UserInfo { user_id: e.user_id.clone(), username: e.username.clone() });
            i = i + 1;
        }
        out
    }
}

/// A packet from a client, decoded. A payload that did not decode is `None`.
pub enum Request {
    Register(Option<AuthPayload>),
    Login(Option<AuthPayload>),
    Chat(Option<ChatPayload>),
    Search(Option<SearchPayload>),
    History(Option<HistoryPayload>),
    Users,
    Quit,
    /// A packet type that only the server sends.
    Unexpected,
    /// A line that is not a packet at all.
    Malformed,
}

/// Whether a request may change the shared state: only registrations and
/// logins do.
pub fn changes_state(req: &Request) -> (r: bool)
    ensures
        r == (*req is Register || *req is Login),
{
    match req {
        Request::Register(_) | Request::Login(_) => true,
        _ => false,
    }
}

/// An effect for the caller to carry out.
pub enum Action {
    /// A response packet to this connection.
    Reply(ResponsePayload),
    /// A system notice to every connection, through the hub.
    Announce(String),
    /// A chat line to every connection, through the hub.
    Broadcast(BroadcastPayload),
    /// A message to hand to the persistence workers; its id is a proposal,
    /// which the store replaces by the next id of its log when it saves it.
    Persist(StoredMessage),
    /// The users must be made durable; the outcome goes to
    /// [`ServerState::finish_registration`] with this new user.
    SaveUsers(User),
}

/// The number of messages returned for a history request whose payload
/// did not decode.
pub const DEFAULT_HISTORY: usize = 20;

/// A response with this outcome and text, carrying no data.
pub open spec fn is_reply(a: Action, success: bool, message: Seq<char>) -> bool {
    a matches Action::Reply(p) && p.success == success && p.message@ == message && p.data is None
}

/// A failed response whose text is `message` after the `error: ` prefix.
pub open spec fn is_error(a: Action, message: Seq<char>) -> bool {
    is_reply(a, false, "error: "@ + message)
}

/// The text reported for a refused registration or login.
pub open spec fn store_error_text(e: StoreError) -> Seq<char> {
    match e {
        StoreError::AlreadyExists(n) => "username "@ + quoted_of(n@) + " is already taken"@,
        StoreError::NotFound(n) => "user "@ + quoted_of(n@) + " not found"@,
        StoreError::WrongPassword => "incorrect password"@,
    }
}

/// What the server state is, as the contracts see it.
pub struct ServerView {
    pub store: StoreView,
    pub online: Seq<OnlineEntry>,
}

/// Nothing changes, and the one action is the error reply `message`.
pub open spec fn rejected(
    o: ServerView,
    n: ServerView,
    oc: Session,
    nc: Session,
    actions: Seq<Action>,
    message: Seq<char>,
) -> bool {
    &&& n == o
    &&& nc == oc
    &&& actions.len() == 1
    &&& is_error(actions[0], message)
}

/// Both fields of a register or login payload are present and non-empty.
pub open spec fn credentials_given(p: Option<AuthPayload>) -> bool {
    p is Some && p.unwrap().username@.len() > 0 && p.unwrap().password@.len() > 0
}

/// The online entries once session `c` has let go of the user it was
/// logged in as, if any.
pub open spec fn released(online: Seq<OnlineEntry>, c: Session) -> Seq<OnlineEntry> {
    match c.identity {
        Some(i) => online_release(online, i.user_id@, c.conn_id@),
        None => online,
    }
}

/// Session `oc` is now logged in as `u`: the session holds its id and name,
/// the registry holds it for this connection in place of the session's
/// previous user, the reply is `text`, and everyone is told that `u` joined.
pub open spec fn signed_in(
    o: ServerView,
    n: ServerView,
    oc: Session,
    nc: Session,
    u: User,
    actions: Seq<Action>,
    text: Seq<char>,
) -> bool {
    &&& nc.conn_id == oc.conn_id
    &&& nc.identity == Some(Identity { user_id: u.id, username: u.username })
    &&& n.online == online_put(
        released(o.online, oc),
        OnlineEntry { user_id: u.id, username: u.username, conn_id: oc.conn_id },
    )
    &&& actions.len() == 2
    &&& is_reply(actions[0], true, text)
    &&& actions[1] matches Action::Announce(t) && t@ == u.username@ + " joined the chat"@
}

/// The effect of a registration request.
pub open spec fn register_effect(
    o: ServerView,
    n: ServerView,
    oc: Session,
    nc: Session,
    p: Option<AuthPayload>,
    actions: Seq<Action>,
) -> bool {
    if !credentials_given(p) {
        rejected(o, n, oc, nc, actions, "register requires {username, password}"@)
    } else if name_taken(o.store.users, p.unwrap().username@) {
        rejected(
            o,
            n,
            oc,
            nc,
            actions,
            "username "@ + quoted_of(p.unwrap().username@) + " is already taken"@,
        )
    } else {
        &&& nc == oc
        &&& n.online == o.online
        &&& n.store.messages == o.store.messages
        &&& n.store.keys == o.store.keys
        &&& actions.len() == 1
        &&& actions[0] matches Action::SaveUsers(u) && {
            &&& u.username@ == p.unwrap().username@
            &&& !crate::store::id_in_use(o.store.users, u.id@)
            &&& u.password_hash@ == crate::text::password_digest(p.unwrap().password@)
            &&& n.store.users == o.store.users.push(u)
        }
    }
}

/// The effect of a login request.
pub open spec fn login_effect(
    o: ServerView,
    n: ServerView,
    oc: Session,
    nc: Session,
    p: Option<AuthPayload>,
    actions: Seq<Action>,
) -> bool {
    if !credentials_given(p) {
        rejected(o, n, oc, nc, actions, "login requires {username, password}"@)
    } else if !name_taken(o.store.users, p.unwrap().username@) {
        rejected(o, n, oc, nc, actions, "user "@ + quoted_of(p.unwrap().username@) + " not found"@)
    } else if !credentials_match(o.store.users, p.unwrap().username@, p.unwrap().password@) {
        rejected(o, n, oc, nc, actions, "incorrect password"@)
    } else {
        &&& n.store == o.store
        &&& exists|i: int|
            0 <= i < o.store.users.len() && crate::text::lower_of(
                #[trigger] o.store.users[i].username@,
            ) == crate::text::lower_of(p.unwrap().username@) && signed_in(
                o,
                n,
                oc,
                nc,
                o.store.users[i],
                actions,
                "logged in as "@ + quoted_of(o.store.users[i].username@),
            )
    }
}

/// The effect of a chat request at instant `at`: the line is broadcast and
/// handed to persistence at once.
pub open spec fn chat_effect(
    o: ServerView,
    n: ServerView,
    oc: Session,
    nc: Session,
    p: Option<ChatPayload>,
    at: Timestamp,
    actions: Seq<Action>,
) -> bool {
    if oc.identity is None {
        rejected(o, n, oc, nc, actions, "you must login or register first"@)
    } else if p is None || p.unwrap().content@.len() == 0 {
        rejected(o, n, oc, nc, actions, "chat requires {content}"@)
    } else {
        let who = oc.identity.unwrap();
        let content = p.unwrap().content;
        &&& n == o
        &&& nc == oc
        &&& actions.len() == 2
        &&& actions[0] == Action::Broadcast(
            BroadcastPayload {
                user_id: who.user_id,
                username: who.username,
                content,
                timestamp: at,
            },
        )
        &&& actions[1] matches Action::Persist(m) && {
            &&& m.id@ == decimal_of(nanos_or_zero(at))
            &&& m.user_id == who.user_id
            &&& m.username == who.username
            &&& m.content == content
            &&& m.timestamp == at
        }
    }
}

/// No search criterion is given.
pub open spec fn criteria_empty(p: SearchPayload) -> bool {
    p.query@.len() == 0 && p.username@.len() == 0 && p.from is None && p.to is None
}

/// The effect of a search request.
pub open spec fn search_effect(
    o: ServerView,
    n: ServerView,
    oc: Session,
    nc: Session,
    p: Option<SearchPayload>,
    actions: Seq<Action>,
) -> bool {
    if oc.identity is None {
        rejected(o, n, oc, nc, actions, "you must login first"@)
    } else if p is None {
        rejected(o, n, oc, nc, actions, "malformed search payload"@)
    } else if criteria_empty(p.unwrap()) {
        rejected(
            o,
            n,
            oc,
            nc,
            actions,
            "provide at least one search criterion (query, username, from, or to)"@,
        )
    } else {
        let c = p.unwrap();
        &&& n == o
        &&& nc == oc
        &&& actions.len() == 1
        &&& actions[0] matches Action::Reply(r) && {
            &&& r.success
            &&& r.data matches Some(ResponseData::Messages(v)) && {
                &&& v@ == search_result(o.store.messages, c.query@, c.username@, c.from, c.to)
                &&& r.message@ == decimal_of(v@.len() as int) + " result(s)"@
            }
        }
    }
}

/// The number of messages a history request asks for: its limit (zero
/// meaning all of them), or the default when the payload did not decode.
pub open spec fn history_limit(p: Option<HistoryPayload>) -> nat {
    match p {
        Some(h) => h.limit as nat,
        None => DEFAULT_HISTORY as nat,
    }
}

/// The effect of a history request.
pub open spec fn history_effect(
    o: ServerView,
    n: ServerView,
    oc: Session,
    nc: Session,
    p: Option<HistoryPayload>,
    actions: Seq<Action>,
) -> bool {
    if oc.identity is None {
        rejected(o, n, oc, nc, actions, "you must login first"@)
    } else {
        &&& n == o
        &&& nc == oc
        &&& actions.len() == 1
        &&& actions[0] matches Action::Reply(r) && {
            &&& r.success
            &&& r.data matches Some(ResponseData::Messages(v)) && {
                &&& v@ == history_of(o.store.messages, history_limit(p))
                &&& r.message@ == "last "@ + decimal_of(v@.len() as int) + " message(s)"@
            }
        }
    }
}

/// The effect of a request for the users online.
pub open spec fn users_effect(
    o: ServerView,
    n: ServerView,
    oc: Session,
    nc: Session,
    actions: Seq<Action>,
) -> bool {
    if oc.identity is None {
        rejected(o, n, oc, nc, actions, "you must login first"@)
    } else {
        &&& n == o
        &&& nc == oc
        &&& actions.len() == 1
        &&& actions[0] matches Action::Reply(r) && {
            &&& r.success
            &&& r.data matches Some(ResponseData::Users(v)) && {
                &&& v@.len() == o.online.len()
                &&& forall|i: int|
                    0 <= i < v@.len() ==> (#[trigger] v@[i]).user_id == o.online[i].user_id
                        && v@[i].username == o.online[i].username
                &&& r.message@ == decimal_of(v@.len() as int) + " user(s) online"@
            }
        }
    }
}

/// The effect of any request at instant `at`.
pub open spec fn dispatch_effect(
    o: ServerView,
    n: ServerView,
    oc: Session,
    nc: Session,
    req: Request,
    at: Timestamp,
    actions: Seq<Action>,
) -> bool {
    match req {
        Request::Register(p) => register_effect(o, n, oc, nc, p, actions),
        Request::Login(p) => login_effect(o, n, oc, nc, p, actions),
        Request::Chat(p) => chat_effect(o, n, oc, nc, p, at, actions),
        Request::Search(p) => search_effect(o, n, oc, nc, p, actions),
        Request::History(p) => history_effect(o, n, oc, nc, p, actions),
        Request::Users => users_effect(o, n, oc, nc, actions),
        Request::Quit => n == o && nc == oc && actions.len() == 0,
        Request::Unexpected => rejected(o, n, oc, nc, actions, "unknown packet type"@),
        Request::Malformed => rejected(o, n, oc, nc, actions, "malformed packet"@),
    }
}

/// The state shared by all sessions.
pub struct ServerState {
    store: Store,
    online: OnlineRegistry,
}

impl View for ServerState {
    type V = ServerView;

    closed spec fn view(&self) -> ServerView {
        ServerView { store: self.store@, online: self.online@ }
    }
}

/// The text of a store error.
fn error_text(e: &StoreError) -> (r: String)
    ensures
        r@ == store_error_text(*e),
{
    match e {
        StoreError::AlreadyExists(n) => {
            let mut t = "username ".to_owned();
            let q = quoted(n.as_str());
            t.append(q.as_str());
            t.append(" is already taken");
            t
        },
        StoreError::NotFound(n) => {
            let mut t = "user ".to_owned();
            let q = quoted(n.as_str());
            t.append(q.as_str());
            t.append(" not found");
            t
        },
        StoreError::WrongPassword => "incorrect password".to_owned(),
    }
}

/// A failed response with the text `error: ` and `message`.
fn error_reply(message: &str) -> (a: Action)
    ensures
        is_error(a, message@),
{
    let mut text = "error: ".to_owned();
    text.append(message);
    Action::Reply(ResponsePayload { success: false, message: text, data: None })
}

/// The one-element list holding `a`.
fn only(a: Action) -> (r: Vec<Action>)
    ensures
        r@ == seq![a],
{
    let mut r: Vec<Action> = Vec::new();
    r.push(a);
    r
}

/// `prefix`, a count in decimal, and `suffix`.
fn counted(prefix: &str, n: usize, suffix: &str) -> (r: String)
    ensures
        r@ == prefix@ + decimal_of(n as int) + suffix@,
{
    let mut t = prefix.to_owned();
    let digits = decimal_text(n as i128);
    t.append(digits.as_str());
    t.append(suffix);
    t
}

impl ServerState {
    pub closed spec fn wf(&self) -> bool {
        self.store.wf() && self.online.wf()
    }

    /// What well-formed server state guarantees: no two users share a name
    /// (without case), message ids strictly increase along the log, and the
    /// registry holds one entry per user.
    pub proof fn lemma_wf(&self)
        requires
            self.wf(),
        ensures
            crate::store::names_unique(self@.store.users),
            crate::store::ids_increasing(self@.store.messages, self@.store.keys),
            user_ids_unique(self@.online),
    {
        self.store.lemma_wf();
    }

    /// Serves `store`, with nobody online.
    pub fn new(store: Store) -> (s: ServerState)
        requires
            store.wf(),
        ensures
            s.wf(),
            s@.store == store@,
            s@.online == Seq::<OnlineEntry>::empty(),
    {
        ServerState { store, online: OnlineRegistry::new() }
    }

    /// The store, for reading.
    pub fn store(&self) -> (r: &Store)
        ensures
            r@ == self@.store,
            self.wf() ==> r.wf(),
    {
        &self.store
    }

    /// The users online, in registry order.
    pub fn online_users(&self) -> (r: Vec<UserInfo>)
        ensures
            r@.len() == self@.online.len(),
            forall|i: int|
                0 <= i < r@.len() ==> (#[trigger] r@[i]).user_id == self@.online[i].user_id
                    && r@[i].username == self@.online[i].username,
    {
        self.online.snapshot()
    }

    /// Appends a message to the store's log under the next id; see
    /// [`Store::save_message`].
    pub fn save_message(&mut self, msg: StoredMessage) -> (saved: bool)
        requires
            old(self).wf(),
        ensures
            final(self).wf(),
            final(self)@.online == old(self)@.online,
            saved == crate::store::can_append(old(self)@.store.keys),
            saved ==> crate::store::appended(old(self)@.store, final(self)@.store, msg),
            !saved ==> final(self)@.store == old(self)@.store,
    {
        self.store.save_message(msg)
    }

    /// Logs `session` in as `user` and announces it.
    fn sign_in(&mut self, session: &mut Session, user: &User, text: String) -> (actions: Vec<Action>)
        requires
            old(self).wf(),
        ensures
            final(self).wf(),
            final(self)@.store == old(self)@.store,
            signed_in(old(self)@, final(self)@, *old(session), *final(session), *user, actions@, text@),
    {
        match &session.identity {
            Some(prev) => {
                let uid = prev.user_id.clone();
                self.online.release(&uid, &session.conn_id);
            },
            None => {},
        }
        self.online.put(
            OnlineEntry {
                user_id: user.id.clone(),
                username: user.username.clone(),
                conn_id: session.conn_id.clone(),
            },
        );
        session.identity = Some(Identity { user_id: user.id.clone(), username: user.username.clone() });
        let mut notice = user.username.clone();
        notice.append(" joined the chat");
        let mut actions: Vec<Action> = Vec::new();
        actions.push(Action::Reply(ResponsePayload { success: true, message: text, data: None }));
        actions.push(Action::Announce(notice));
        actions
    }

    fn handle_register(&mut self, session: &mut Session, p: Option<AuthPayload>) -> (actions: Vec<Action>)
        requires
            old(self).wf(),
        ensures
            final(self).wf(),
            register_effect(old(self)@, final(self)@, *old(session), *final(session), p, actions@),
    {
        let a = match p {
            Some(a) => a,
            None => {
                return only(error_reply("register requires {username, password}"));
            },
        };
        if a.username.as_str().is_empty() || a.password.as_str().is_empty() {
            return only(error_reply("register requires {username, password}"));
        }
        match self.store.register_user(a.username.as_str(), a.password.as_str()) {
            Err(e) => {
                let t = error_text(&e);
                only(error_reply(t.as_str()))
            },
            Ok(user) => only(Action::SaveUsers(user)),
        }
    }

    /// Completes a registration once the users were written (`saved`) or
    /// not. When they were, the session is logged in as `user`; when they
    /// were not, the registration is taken back and the session is told.
    pub fn finish_registration(&mut self, session: &mut Session, user: User, saved: bool) -> (actions: Vec<Action>)
        requires
            old(self).wf(),
        ensures
            final(self).wf(),
            saved ==> final(self)@.store == old(self)@.store && signed_in(
                old(self)@,
                final(self)@,
                *old(session),
                *final(session),
                user,
                actions@,
                "registered and logged in as "@ + quoted_of(user.username@),
            ),
            !saved ==> {
                &&& *final(session) == *old(session)
                &&& final(self)@.online == old(self)@.online
                &&& final(self)@.store.messages == old(self)@.store.messages
                &&& final(self)@.store.keys == old(self)@.store.keys
                &&& !name_taken(old(self)@.store.users, user.username@) ==> final(self)@.store.users
                    == old(self)@.store.users
                &&& name_taken(old(self)@.store.users, user.username@) ==> exists|i: int|
                    0 <= i < old(self)@.store.users.len() && crate::text::lower_of(
                        #[trigger] old(self)@.store.users[i].username@,
                    ) == crate::text::lower_of(user.username@) && final(self)@.store.users == old(
                        self,
                    )@.store.users.remove(i)
                &&& actions@.len() == 1
                &&& is_error(actions@[0], "registration could not be saved"@)
            },
    {
        if saved {
            let mut text = "registered and logged in as ".to_owned();
            let q = quoted(user.username.as_str());
            text.append(q.as_str());
            self.sign_in(session, &user, text)
        } else {
            self.store.remove_user(user.username.as_str());
            only(error_reply("registration could not be saved"))
        }
    }

    fn handle_login(&mut self, session: &mut Session, p: Option<AuthPayload>) -> (actions: Vec<Action>)
        requires
            old(self).wf(),
        ensures
            final(self).wf(),
            login_effect(old(self)@, final(self)@, *old(session), *final(session), p, actions@),
    {
        let a = match p {
            Some(a) => a,
            None => {
                return only(error_reply("login requires {username, password}"));
            },
        };
        if a.username.as_str().is_empty() || a.password.as_str().is_empty() {
            return only(error_reply("login requires {username, password}"));
        }
        let ghost users = self@.store.users;
        match self.store.authenticate(a.username.as_str(), a.password.as_str()) {
            Err(e) => {
                let t = error_text(&e);
                only(error_reply(t.as_str()))
            },
            Ok(user) => {
                let ghost i = choose|i: int| 0 <= i < users.len() && users[i] == user;
                let mut text = "logged in as ".to_owned();
                let q = quoted(user.username.as_str());
                text.append(q.as_str());
                let actions = self.sign_in(session, &user, text);
                assert(users[i] == user);
                actions
            },
        }
    }

    fn handle_chat(&self, session: &Session, p: Option<ChatPayload>, at: Timestamp) -> (actions: Vec<Action>)
        ensures
            chat_effect(self@, self@, *session, *session, p, at, actions@),
    {
        let who = match session.get_identity() {
            Some(i) => i,
            None => {
                return only(error_reply("you must login or register first"));
            },
        };
        let c = match p {
            Some(c) => c,
            None => {
                return only(error_reply("chat requires {content}"));
            },
        };
        if c.content.as_str().is_empty() {
            return only(error_reply("chat requires {content}"));
        }
        let msg = StoredMessage {
            id: message_id(at),
            user_id: who.user_id.clone(),
            username: who.username.clone(),
            content: c.content.clone(),
            timestamp: at,
        };
        let line = BroadcastPayload {
            user_id: who.user_id,
            username: who.username,
            content: c.content,
            timestamp: at,
        };
        let mut actions: Vec<Action> = Vec::new();
        actions.push(Action::Broadcast(line));
        actions.push(Action::Persist(msg));
        actions
    }

    fn handle_search(&self, session: &Session, p: Option<SearchPayload>) -> (actions: Vec<Action>)
        requires
            self.wf(),
        ensures
            search_effect(self@, self@, *session, *session, p, actions@),
    {
        if !session.is_authenticated() {
            return only(error_reply("you must login first"));
        }
        let c = match p {
            Some(c) => c,
            None => {
                return only(error_reply("malformed search payload"));
            },
        };
        if c.query.as_str().is_empty() && c.username.as_str().is_empty() && c.from.is_none()
            && c.to.is_none() {
            return only(
                error_reply("provide at least one search criterion (query, username, from, or to)"),
            );
        }
        let results = self.store.search(c.query.as_str(), c.username.as_str(), c.from, c.to);
        let text = counted("", results.len(), " result(s)");
        proof {
            reveal_strlit("");
            assert(""@ + decimal_of(results@.len() as int) =~= decimal_of(results@.len() as int));
        }
        only(
            Action::Reply(
                ResponsePayload {
                    success: true,
                    message: text,
                    data: Some(ResponseData::Messages(results)),
                },
            ),
        )
    }

    fn handle_history(&self, session: &Session, p: Option<HistoryPayload>) -> (actions: Vec<Action>)
        requires
            self.wf(),
        ensures
            history_effect(self@, self@, *session, *session, p, actions@),
    {
        if !session.is_authenticated() {
            return only(error_reply("you must login first"));
        }
        let limit: usize = match p {
            Some(h) => h.limit,
            None => DEFAULT_HISTORY,
        };
        let msgs = self.store.get_history(limit);
        let text = counted("last ", msgs.len(), " message(s)");
        only(
            Action::Reply(
                ResponsePayload { success: true, message: text, data: Some(ResponseData::Messages(msgs)) },
            ),
        )
    }

    fn handle_users(&self, session: &Session) -> (actions: Vec<Action>)
        requires
            self.wf(),
        ensures
            users_effect(self@, self@, *session, *session, actions@),
    {
        if !session.is_authenticated() {
            return only(error_reply("you must login first"));
        }
        let users = self.online.snapshot();
        let text = counted("", users.len(), " user(s) online");
        proof {
            reveal_strlit("");
            assert(""@ + decimal_of(users@.len() as int) =~= decimal_of(users@.len() as int));
        }
        only(
            Action::Reply(
                ResponsePayload { success: true, message: text, data: Some(ResponseData::Users(users)) },
            ),
        )
    }

    /// Decides what a request does at instant `at`: see [`dispatch_effect`].
    pub fn dispatch(&mut self, session: &mut Session, req: Request, at: Timestamp) -> (actions: Vec<Action>)
        requires
            old(self).wf(),
        ensures
            final(self).wf(),
            dispatch_effect(old(self)@, final(self)@, *old(session), *final(session), req, at, actions@),
    {
        match req {
            Request::Register(p) => self.handle_register(session, p),
            Request::Login(p) => self.handle_login(session, p),
            Request::Chat(p) => self.handle_chat(session, p, at),
            Request::Search(p) => self.handle_search(session, p),
            Request::History(p) => self.handle_history(session, p),
            Request::Users => self.handle_users(session),
            Request::Quit => Vec::new(),
            Request::Unexpected => only(error_reply("unknown packet type")),
            Request::Malformed => only(error_reply("malformed packet")),
        }
    }

    /// Answers a request that leaves the shared state as it is (anything
    /// but a registration or a login), at instant `at`; callers may run
    /// these side by side.
    pub fn answer(&self, session: &Session, req: Request, at: Timestamp) -> (actions: Vec<Action>)
        requires
            self.wf(),
            !(req is Register || req is Login),
        ensures
            dispatch_effect(self@, self@, *session, *session, req, at, actions@),
    {
        match req {
            Request::Chat(p) => self.handle_chat(session, p, at),
            Request::Search(p) => self.handle_search(session, p),
            Request::History(p) => self.handle_history(session, p),
            Request::Users => self.handle_users(session),
            Request::Quit => Vec::new(),
            Request::Unexpected => only(error_reply("unknown packet type")),
            Request::Malformed => only(error_reply("malformed packet")),
            Request::Register(_) | Request::Login(_) => Vec::new(),
        }
    }

    /// Decides what a request does now.
    pub fn handle(&mut self, session: &mut Session, req: Request) -> (actions: Vec<Action>)
        requires
            old(self).wf(),
        ensures
            final(self).wf(),
            exists|at: Timestamp|
                dispatch_effect(old(self)@, final(self)@, *old(session), *final(session), req, at, actions@),
    {
        let at = now();
        self.dispatch(session, req, at)
    }

    /// A connection closed: the registry lets go of its user, if this
    /// connection still holds the entry.
    pub fn close(&mut self, session: &Session)
        requires
            old(self).wf(),
        ensures
            final(self).wf(),
            final(self)@.store == old(self)@.store,
            final(self)@.online == released(old(self)@.online, *session),
    {
        match &session.identity {
            Some(i) => self.online.release(&i.user_id, &session.conn_id),
            None => {},
        }
    }
}

/// A session that is not logged in and asks to chat, search, read the
/// history or list the users gets one authorization error and nothing else
/// happens: the store, the registry and the session stay as they were, and
/// nothing is broadcast or persisted.
pub proof fn lemma_unauthenticated_requests_rejected(
    o: ServerView,
    n: ServerView,
    oc: Session,
    nc: Session,
    req: Request,
    at: Timestamp,
    actions: Seq<Action>,
)
    requires
        oc.identity is None,
        req is Chat || req is Search || req is History || req is Users,
        dispatch_effect(o, n, oc, nc, req, at, actions),
    ensures
        n == o,
        nc == oc,
        actions.len() == 1,
        actions[0] matches Action::Reply(r) && !r.success,
        is_error(actions[0], "you must login or register first"@) || is_error(
            actions[0],
            "you must login first"@,
        ),
{
}

/// A search with no criterion is refused before the store is consulted:
/// the one reply is an error and nothing changes.
pub proof fn lemma_empty_search_rejected(
    o: ServerView,
    n: ServerView,
    oc: Session,
    nc: Session,
    p: SearchPayload,
    actions: Seq<Action>,
)
    requires
        criteria_empty(p),
        search_effect(o, n, oc, nc, Some(p), actions),
    ensures
        n == o,
        nc == oc,
        actions.len() == 1,
        actions[0] matches Action::Reply(r) && !r.success && r.data is None,
{
}

} // verus!
