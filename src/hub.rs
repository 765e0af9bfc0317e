//! The broadcast hub: the registry of live outbound channels, and fan-out
//! of every broadcast to all of them without waiting on a slow consumer.
//!
//! The hub is a single serialized actor: its owner feeds it
//! [`HubCommand`]s one at a time, in arrival order, through [`Hub::apply`].
use vstd::prelude::*;

use tokio::sync::mpsc::Sender;

verus! {

#[verifier::external_type_specification]
#[verifier::external_body]
#[verifier::reject_recursive_types(T)]
pub struct ExSender<T>(Sender<T>);

/// Relies on tokio's `mpsc::Sender::try_send`: queues `data` without
/// waiting, and reports whether the channel took it. It fails when the
/// queue is full or the receiver is gone, which the caller cannot know.
#[verifier::external_body]
fn try_deliver(tx: &Sender<Vec<u8>>, data: Vec<u8>) -> (r: bool) {
    tx.try_send(data).is_ok()
}

/// One connection's entry: its id, the name shown for it, and its
/// outbound queue.
pub struct ClientHandle {
    pub id: String,
    pub username: String,
    pub tx: Sender<Vec<u8>>,
}

pub enum HubCommand {
    Register(ClientHandle),
    /// Drops the entry with this connection id.
    Unregister(String),
    Broadcast(Vec<u8>),
}

/// A registered connection, as the hub's contracts see it.
pub struct Member {
    pub id: Seq<char>,
    pub username: Seq<char>,
}

/// One payload handed to one connection's outbound queue.
pub struct Delivery {
    pub client: Seq<char>,
    pub data: Seq<u8>,
}

impl View for ClientHandle {
    type V = Member;

    open spec fn view(&self) -> Member {
        Member { id: self.id@, username: self.username@ }
    }
}

/// The members whose delivery succeeded (`ok` is indexed like `members`),
/// in order.
pub open spec fn kept(members: Seq<Member>, ok: Seq<bool>) -> Seq<Member>
    decreases members.len(),
{
    if members.len() == 0 {
        Seq::empty()
    } else {
        let rest = kept(members.drop_last(), ok);
        if ok[members.len() - 1] {
            rest.push(members.last())
        } else {
            rest
        }
    }
}

/// The members whose delivery failed, in order.
pub open spec fn dropped(members: Seq<Member>, ok: Seq<bool>) -> Seq<Member>
    decreases members.len(),
{
    if members.len() == 0 {
        Seq::empty()
    } else {
        let rest = dropped(members.drop_last(), ok);
        if ok[members.len() - 1] {
            rest
        } else {
            rest.push(members.last())
        }
    }
}

/// The deliveries of `data` made to the members whose queue took it.
pub open spec fn sent(members: Seq<Member>, ok: Seq<bool>, data: Seq<u8>) -> Seq<Delivery>
    decreases members.len(),
{
    if members.len() == 0 {
        Seq::empty()
    } else {
        let rest = sent(members.drop_last(), ok, data);
        if ok[members.len() - 1] {
            rest.push(Delivery { client: members.last().id, data })
        } else {
            rest
        }
    }
}

/// No two members share an id.
pub open spec fn ids_unique(members: Seq<Member>) -> bool {
    forall|i: int, j: int|
        0 <= i < members.len() && 0 <= j < members.len() && i != j ==> (#[trigger] members[i]).id
            != (#[trigger] members[j]).id
}

/// `members` after registering `m`: it replaces the member with its id, or
/// goes last.
pub open spec fn upsert_member(members: Seq<Member>, m: Member) -> Seq<Member> {
    if has_member(members, m.id) {
        let i = choose|i: int| 0 <= i < members.len() && (#[trigger] members[i]).id == m.id;
        members.update(i, m)
    } else {
        members.push(m)
    }
}

/// Some member has the id `id`.
pub open spec fn has_member(members: Seq<Member>, id: Seq<char>) -> bool {
    exists|i: int| 0 <= i < members.len() && (#[trigger] members[i]).id == id
}

/// `members` without the one whose id is `id`, if any.
pub open spec fn without_member(members: Seq<Member>, id: Seq<char>) -> Seq<Member> {
    if has_member(members, id) {
        let i = choose|i: int| 0 <= i < members.len() && (#[trigger] members[i]).id == id;
        members.remove(i)
    } else {
        members
    }
}

/// What the hub holds: its members in order, and every delivery it has made.
pub struct HubView {
    pub members: Seq<Member>,
    pub log: Seq<Delivery>,
}

/// What a broadcast did, member by member.
pub struct BroadcastReport {
    /// Indexed like the members before the broadcast: whether each one's
    /// queue took the payload.
    pub delivered: Vec<bool>,
    /// The members whose queue refused it; they are no longer registered.
    pub evicted: Vec<ClientHandle>,
}

/// What applying one command did.
pub enum HubOutcome {
    /// The number of members after the registration.
    Registered(usize),
    /// The entry that was removed, if there was one.
    Unregistered(Option<ClientHandle>),
    Broadcast(BroadcastReport),
}

/// A copy of a byte buffer.
fn copy_bytes(data: &Vec<u8>) -> (r: Vec<u8>)
    ensures
        r@ == data@,
{
    let mut out: Vec<u8> = Vec::new();
    let mut i: usize = 0;
    while i < data.len()
        invariant
            0 <= i <= data@.len(),
            out@ == data@.subrange(0, i as int),
        decreases data@.len() - i,
    {
        out.push(data[i]);
        i = i + 1;
        assert(out@ =~= data@.subrange(0, i as int));
    }
    assert(out@ =~= data@);
    out
}

pub struct Hub {
    clients: Vec<ClientHandle>,
    log: Ghost<Seq<Delivery>>,
}

impl View for Hub {
    type V = HubView;

    closed spec fn view(&self) -> HubView {
        HubView { members: self.clients@.map_values(|h: ClientHandle| h@), log: self.log@ }
    }
}


impl Hub {
    /// No two members share an id.
    pub open spec fn wf(&self) -> bool {
        ids_unique(self@.members)
    }

    pub fn new() -> (h: Hub)
        ensures
            h.wf(),
            h@.members == Seq::<Member>::empty(),
            h@.log == Seq::<Delivery>::empty(),
    {
        let h = Hub { clients: Vec::new(), log: Ghost(Seq::empty()) };
        assert(h@.members =~= Seq::<Member>::empty());
        h
    }

    /// The number of members.
    pub fn len(&self) -> (r: usize)
        ensures
            r == self@.members.len(),
    {
        self.clients.len()
    }

    fn find(&self, id: &String) -> (r: Option<usize>)
        ensures
            match r {
                Some(i) => i < self@.members.len() && self@.members[i as int].id == id@,
                None => !has_member(self@.members, id@),
            },
    {
        let mut i: usize = 0;
        while i < self.clients.len()
            invariant
                0 <= i <= self.clients@.len(),
                forall|j: int| 0 <= j < i ==> (#[trigger] self.clients@[j]).id@ != id@,
            decreases self.clients@.len() - i,
        {
            if self.clients[i].id == *id {
                return Some(i);
            }
            i = i + 1;
        }
        proof {
            if has_member(self@.members, id@) {
                let j = choose|j: int| 0 <= j < self@.members.len() && (#[trigger] self@.members[j]).id == id@;
                assert(self.clients@[j].id@ != id@);
            }
        }
        None
    }

    /// Adds a connection, replacing the entry with the same id if there is one.
    pub fn register(&mut self, handle: ClientHandle)
        requires
            old(self).wf(),
        ensures
            final(self).wf(),
            final(self)@.members == upsert_member(old(self)@.members, handle@),
            final(self)@.log == old(self)@.log,
    {
        let ghost members = self@.members;
        let ghost m = handle@;
        match self.find(&handle.id) {
            Some(i) => {
                let ghost c = choose|c: int| 0 <= c < members.len() && (#[trigger] members[c]).id == m.id;
                assert(c == i);
                self.clients[i] = handle;
                assert(self@.members =~= members.update(i as int, m));
                assert forall|a: int, b: int|
                    0 <= a < self@.members.len() && 0 <= b < self@.members.len() && a != b implies
                    (#[trigger] self@.members[a]).id != (#[trigger] self@.members[b]).id by {
                    if a != i {
                        assert(self@.members[a] == members[a]);
                    }
                    if b != i {
                        assert(self@.members[b] == members[b]);
                    }
                }
            },
            None => {
                self.clients.push(handle);
                assert(self@.members =~= members.push(m));
                assert forall|a: int, b: int|
                    0 <= a < self@.members.len() && 0 <= b < self@.members.len() && a != b implies
                    (#[trigger] self@.members[a]).id != (#[trigger] self@.members[b]).id by {
                    if a < members.len() && b < members.len() {
                        assert(self@.members[a] == members[a]);
                        assert(self@.members[b] == members[b]);
                    } else if a < members.len() {
                        assert(self@.members[a] == members[a]);
                    } else {
                        assert(self@.members[b] == members[b]);
                    }
                }
            },
        }
    }

    /// Removes the connection with this id; an absent id changes nothing.
    pub fn unregister(&mut self, id: &String) -> (r: Option<ClientHandle>)
        requires
            old(self).wf(),
        ensures
            final(self).wf(),
            final(self)@.members == without_member(old(self)@.members, id@),
            final(self)@.log == old(self)@.log,
            r is Some <==> has_member(old(self)@.members, id@),
            r matches Some(h) ==> h@.id == id@,
    {
        let ghost members = self@.members;
        match self.find(id) {
            Some(i) => {
                let ghost c = choose|c: int| 0 <= c < members.len() && (#[trigger] members[c]).id == id@;
                assert(c == i);
                let h = self.clients.remove(i);
                assert(self@.members =~= members.remove(i as int));
                assert forall|a: int, b: int|
                    0 <= a < self@.members.len() && 0 <= b < self@.members.len() && a != b implies
                    (#[trigger] self@.members[a]).id != (#[trigger] self@.members[b]).id by {
                    let a0 = if a < i { a } else { a + 1 };
                    let b0 = if b < i { b } else { b + 1 };
                    assert(self@.members[a] == members[a0]);
                    assert(self@.members[b] == members[b0]);
                }
                Some(h)
            },
            None => None,
        }
    }

    /// Offers `data` to every member's queue without waiting. A member whose
    /// queue refuses it is evicted; the others stay, in order, and each of
    /// them gets one delivery of `data`, in member order.
    pub fn broadcast(&mut self, data: &Vec<u8>) -> (r: BroadcastReport)
        requires
            old(self).wf(),
        ensures
            final(self).wf(),
            r.delivered@.len() == old(self)@.members.len(),
            final(self)@.members == kept(old(self)@.members, r.delivered@),
            r.evicted@.map_values(|h: ClientHandle| h@) == dropped(old(self)@.members, r.delivered@),
            final(self)@.log == old(self)@.log + sent(old(self)@.members, r.delivered@, data@),
    {
        let ghost members = self@.members;
        let ghost start = self@.log;
        let ghost n = members.len();
        let mut pending: Vec<ClientHandle> = Vec::new();
        std::mem::swap(&mut self.clients, &mut pending);
        let mut delivered: Vec<bool> = Vec::new();
        let mut evicted: Vec<ClientHandle> = Vec::new();
        assert(pending@.map_values(|h: ClientHandle| h@) =~= members.subrange(0, n as int));
        assert(self@.members =~= Seq::<Member>::empty());
        assert(evicted@.map_values(|h: ClientHandle| h@) =~= Seq::<Member>::empty());
        assert(start + Seq::<Delivery>::empty() =~= start);
        while pending.len() > 0
            invariant
                ids_unique(members),
                n == members.len(),
                delivered@.len() + pending@.len() == n,
                pending@.map_values(|h: ClientHandle| h@) == members.subrange(
                    delivered@.len() as int,
                    n as int,
                ),
                self@.members == kept(members.subrange(0, delivered@.len() as int), delivered@),
                evicted@.map_values(|h: ClientHandle| h@) == dropped(
                    members.subrange(0, delivered@.len() as int),
                    delivered@,
                ),
                self@.log == start + sent(members.subrange(0, delivered@.len() as int), delivered@, data@),
            decreases pending@.len(),
        {
            let ghost i = delivered@.len() as int;
            let ghost pre = members.subrange(0, i);
            let ghost pre1 = members.subrange(0, i + 1);
            let ghost before = delivered@;
            let ghost kept_before = self@.members;
            let ghost evicted_before = evicted@.map_values(|h: ClientHandle| h@);
            let ghost pv = pending@;
            assert(pv.map_values(|h: ClientHandle| h@)[0] == members[i]);
            let h = pending.remove(0);
            assert(h == pv[0]);
            assert(h@ == members[i]);
            assert forall|j: int| 0 <= j < pending@.len() implies (#[trigger] pending@[j])@ == members[i + 1 + j] by {
                assert(pending@[j] == pv[j + 1]);
                assert(pv.map_values(|h: ClientHandle| h@)[j + 1] == members.subrange(i, n as int)[j + 1]);
            }
            assert(pending@.map_values(|h: ClientHandle| h@) =~= members.subrange(i + 1, n as int));
            let ok = try_deliver(&h.tx, copy_bytes(data));
            delivered.push(ok);
            proof {
                lemma_agree(pre, before, delivered@, data@);
                assert(pre1.drop_last() =~= pre);
                assert(pre1.last() == members[i]);
            }
            if ok {
                let ghost d = Delivery { client: h.id@, data: data@ };
                self.clients.push(h);
                self.log = Ghost(self.log@.push(d));
                assert(self@.members =~= kept_before.push(members[i]));
                assert(evicted@.map_values(|h: ClientHandle| h@) =~= evicted_before);
            } else {
                evicted.push(h);
                assert(evicted@.map_values(|h: ClientHandle| h@) =~= evicted_before.push(members[i]));
                assert(self@.members =~= kept_before);
            }
        }
        assert(members.subrange(0, n as int) =~= members);
        proof {
            lemma_kept_members(members, delivered@);
        }
        BroadcastReport { delivered, evicted }
    }

    /// Carries out one command.
    pub fn apply(&mut self, cmd: HubCommand) -> (r: HubOutcome)
        requires
            old(self).wf(),
        ensures
            final(self).wf(),
            match cmd {
                HubCommand::Register(h) => {
                    &&& final(self)@.members == upsert_member(old(self)@.members, h@)
                    &&& final(self)@.log == old(self)@.log
                    &&& r == HubOutcome::Registered(final(self)@.members.len() as usize)
                },
                HubCommand::Unregister(id) => {
                    &&& final(self)@.members == without_member(old(self)@.members, id@)
                    &&& final(self)@.log == old(self)@.log
                    &&& r matches HubOutcome::Unregistered(o) && (o is Some <==> has_member(
                        old(self)@.members,
                        id@,
                    )) && (o matches Some(h) ==> h@.id == id@)
                },
                HubCommand::Broadcast(data) => r matches HubOutcome::Broadcast(rep) && {
                    &&& rep.delivered@.len() == old(self)@.members.len()
                    &&& final(self)@.members == kept(old(self)@.members, rep.delivered@)
                    &&& rep.evicted@.map_values(|h: ClientHandle| h@) == dropped(
                        old(self)@.members,
                        rep.delivered@,
                    )
                    &&& final(self)@.log == old(self)@.log + sent(
                        old(self)@.members,
                        rep.delivered@,
                        data@,
                    )
                },
            },
    {
        match cmd {
            HubCommand::Register(h) => {
                self.register(h);
                HubOutcome::Registered(self.clients.len())
            },
            HubCommand::Unregister(id) => HubOutcome::Unregistered(self.unregister(&id)),
            HubCommand::Broadcast(data) => HubOutcome::Broadcast(self.broadcast(&data)),
        }
    }
}

/// `kept`, `dropped` and `sent` read the flags of the members' own positions
/// only.
proof fn lemma_agree(members: Seq<Member>, ok1: Seq<bool>, ok2: Seq<bool>, data: Seq<u8>)
    requires
        forall|j: int| 0 <= j < members.len() ==> ok1[j] == ok2[j],
    ensures
        kept(members, ok1) == kept(members, ok2),
        dropped(members, ok1) == dropped(members, ok2),
        sent(members, ok1, data) == sent(members, ok2, data),
    decreases members.len(),
{
    if members.len() > 0 {
        lemma_agree(members.drop_last(), ok1, ok2, data);
    }
}

/// The kept members come from `members`, with flags set, and keep their ids
/// distinct; every flagged member is kept.
proof fn lemma_kept_members(members: Seq<Member>, ok: Seq<bool>)
    ensures
        forall|j: int|
            0 <= j < kept(members, ok).len() ==> exists|i: int|
                0 <= i < members.len() && ok[i] && #[trigger] kept(members, ok)[j] == members[i],
        forall|i: int| 0 <= i < members.len() && ok[i] ==> kept(members, ok).contains(#[trigger] members[i]),
        ids_unique(members) ==> ids_unique(kept(members, ok)),
    decreases members.len(),
{
    if members.len() > 0 {
        let rest = members.drop_last();
        lemma_kept_members(rest, ok);
        let k = kept(rest, ok);
        let last = members.len() - 1;
        assert forall|j: int| 0 <= j < kept(members, ok).len() implies exists|i: int|
            0 <= i < members.len() && ok[i] && #[trigger] kept(members, ok)[j] == members[i] by {
            if j < k.len() {
                let i = choose|i: int| 0 <= i < rest.len() && ok[i] && #[trigger] k[j] == rest[i];
                assert(members[i] == rest[i]);
            } else {
                assert(kept(members, ok)[j] == members[last]);
            }
        }
        assert forall|i: int| 0 <= i < members.len() && ok[i] implies kept(members, ok).contains(
            #[trigger] members[i],
        ) by {
            if i < last {
                assert(members[i] == rest[i]);
                let j = choose|j: int| 0 <= j < k.len() && k[j] == rest[i];
                assert(kept(members, ok)[j] == k[j]);
            } else {
                assert(kept(members, ok)[k.len() as int] == members[i]);
            }
        }
        if ids_unique(members) && ok[last] {
            assert(ids_unique(rest)) by {
                assert forall|a: int, b: int|
                    0 <= a < rest.len() && 0 <= b < rest.len() && a != b implies (#[trigger] rest[a]).id
                    != (#[trigger] rest[b]).id by {
                    assert(rest[a] == members[a]);
                    assert(rest[b] == members[b]);
                }
            }
            let kk = kept(members, ok);
            assert forall|a: int, b: int|
                0 <= a < kk.len() && 0 <= b < kk.len() && a != b implies (#[trigger] kk[a]).id
                != (#[trigger] kk[b]).id by {
                if a < k.len() && b < k.len() {
                    assert(kk[a] == k[a]);
                    assert(kk[b] == k[b]);
                } else if a < k.len() {
                    let i = choose|i: int| 0 <= i < rest.len() && ok[i] && #[trigger] k[a] == rest[i];
                    assert(members[i] == rest[i]);
                    assert(kk[a] == k[a]);
                    assert(kk[b] == members[last]);
                } else {
                    let i = choose|i: int| 0 <= i < rest.len() && ok[i] && #[trigger] k[b] == rest[i];
                    assert(members[i] == rest[i]);
                    assert(kk[b] == k[b]);
                    assert(kk[a] == members[last]);
                }
            }
        } else if ids_unique(members) {
            assert forall|a: int, b: int|
                0 <= a < rest.len() && 0 <= b < rest.len() && a != b implies (#[trigger] rest[a]).id
                != (#[trigger] rest[b]).id by {
                assert(rest[a] == members[a]);
                assert(rest[b] == members[b]);
            }
        }
    }
}

/// Each delivery of a broadcast carries its payload and goes to the kept
/// member at the same position.
proof fn lemma_sent_follows_kept(members: Seq<Member>, ok: Seq<bool>, data: Seq<u8>)
    ensures
        sent(members, ok, data).len() == kept(members, ok).len(),
        forall|j: int|
            0 <= j < sent(members, ok, data).len() ==> #[trigger] sent(members, ok, data)[j]
                == (Delivery { client: kept(members, ok)[j].id, data }),
    decreases members.len(),
{
    if members.len() > 0 {
        lemma_sent_follows_kept(members.drop_last(), ok, data);
    }
}

/// A broadcast that every member's queue takes evicts nobody and reaches
/// each member exactly once, in member order.
pub proof fn lemma_full_delivery(members: Seq<Member>, ok: Seq<bool>, data: Seq<u8>)
    requires
        forall|k: int| 0 <= k < members.len() ==> ok[k],
    ensures
        kept(members, ok) == members,
        dropped(members, ok).len() == 0,
        sent(members, ok, data).len() == members.len(),
        forall|k: int|
            0 <= k < members.len() ==> #[trigger] sent(members, ok, data)[k] == (Delivery {
                client: members[k].id,
                data,
            }),
    decreases members.len(),
{
    if members.len() > 0 {
        lemma_full_delivery(members.drop_last(), ok, data);
        assert(kept(members, ok) =~= members);
        lemma_sent_follows_kept(members, ok, data);
    }
}

/// Of two broadcasts made in turn, `a` then `b`, the deliveries of the
/// first take the positions of the hub's log right after what was there,
/// and the deliveries of the second all come after them.
pub proof fn lemma_broadcasts_keep_order(
    log0: Seq<Delivery>,
    members: Seq<Member>,
    ok1: Seq<bool>,
    a: Seq<u8>,
    ok2: Seq<bool>,
    b: Seq<u8>,
)
    ensures
        ({
            let s1 = sent(members, ok1, a);
            let s2 = sent(kept(members, ok1), ok2, b);
            let log = log0 + s1 + s2;
            &&& log.len() == log0.len() + s1.len() + s2.len()
            &&& forall|i: int|
                log0.len() <= i < log0.len() + s1.len() ==> (#[trigger] log[i]).data == a
            &&& forall|j: int|
                log0.len() + s1.len() <= j < log.len() ==> (#[trigger] log[j]).data == b
        }),
{
    let s1 = sent(members, ok1, a);
    let s2 = sent(kept(members, ok1), ok2, b);
    lemma_sent_follows_kept(members, ok1, a);
    lemma_sent_follows_kept(kept(members, ok1), ok2, b);
    let log = log0 + s1 + s2;
    assert forall|i: int| log0.len() <= i < log0.len() + s1.len() implies (#[trigger] log[i]).data
        == a by {
        assert(log[i] == s1[i - log0.len()]);
    }
    assert forall|j: int| log0.len() + s1.len() <= j < log.len() implies (#[trigger] log[j]).data
        == b by {
        assert(log[j] == s2[j - log0.len() - s1.len()]);
    }
}

/// A member evicted by one broadcast gets no delivery from the next, while
/// a member that stayed keeps its place among the members and gets the next
/// broadcast whenever its own queue takes it.
pub proof fn lemma_evicted_gets_nothing(
    members: Seq<Member>,
    ok1: Seq<bool>,
    k: int,
    ok2: Seq<bool>,
    b: Seq<u8>,
)
    requires
        ids_unique(members),
        ok1.len() == members.len(),
        0 <= k < members.len(),
    ensures
        !ok1[k] ==> forall|j: int|
            0 <= j < sent(kept(members, ok1), ok2, b).len() ==> (#[trigger] sent(
                kept(members, ok1),
                ok2,
                b,
            )[j]).client != members[k].id,
        ok1[k] ==> exists|j: int|
            0 <= j < kept(members, ok1).len() && #[trigger] kept(members, ok1)[j] == members[k] && (
            ok2[j] ==> sent(kept(members, ok1), ok2, b).contains(
                (Delivery { client: members[k].id, data: b }),
            )),
{
    let kk = kept(members, ok1);
    lemma_kept_members(members, ok1);
    lemma_sent_follows_kept(kk, ok2, b);
    if !ok1[k] {
        assert forall|j: int| 0 <= j < sent(kk, ok2, b).len() implies (#[trigger] sent(kk, ok2, b)[j]).client
            != members[k].id by {
            lemma_kept_members(kk, ok2);
            let k2 = kept(kk, ok2);
            assert(sent(kk, ok2, b)[j].client == k2[j].id);
            let jj = choose|jj: int| 0 <= jj < kk.len() && ok2[jj] && #[trigger] k2[j] == kk[jj];
            let i = choose|i: int| 0 <= i < members.len() && ok1[i] && #[trigger] kk[jj] == members[i];
            assert(i != k);
            assert(members[i].id != members[k].id);
        }
    }
    if ok1[k] {
        assert(kk.contains(members[k]));
        let j = choose|j: int| 0 <= j < kk.len() && kk[j] == members[k];
        if ok2[j] {
            lemma_kept_members(kk, ok2);
            let k2 = kept(kk, ok2);
            assert(k2.contains(kk[j]));
            let p = choose|p: int| 0 <= p < k2.len() && k2[p] == kk[j];
            assert(sent(kk, ok2, b)[p] == Delivery { client: members[k].id, data: b });
        }
    }
}

/// The members after a run of broadcasts, the `t`-th with the delivery
/// flags `oks[t]` (as [`Hub::broadcast`] reports them).
pub open spec fn run_members(members: Seq<Member>, oks: Seq<Seq<bool>>) -> Seq<Member>
    decreases oks.len(),
{
    if oks.len() == 0 {
        members
    } else {
        kept(run_members(members, oks.drop_last()), oks.last())
    }
}

/// The deliveries a run of broadcasts makes, in order, the `t`-th
/// broadcast carrying `datas[t]`.
pub open spec fn run_log(members: Seq<Member>, oks: Seq<Seq<bool>>, datas: Seq<Seq<u8>>) -> Seq<
    Delivery,
>
    decreases oks.len(),
{
    if oks.len() == 0 {
        Seq::empty()
    } else {
        run_log(members, oks.drop_last(), datas) + sent(
            run_members(members, oks.drop_last()),
            oks.last(),
            datas[oks.len() - 1],
        )
    }
}

/// A connection that is not a member stays out through a run of
/// broadcasts and gets none of their deliveries.
proof fn lemma_absent_stays_out(
    members: Seq<Member>,
    oks: Seq<Seq<bool>>,
    datas: Seq<Seq<u8>>,
    id: Seq<char>,
)
    requires
        !has_member(members, id),
    ensures
        !has_member(run_members(members, oks), id),
        forall|i: int|
            0 <= i < run_log(members, oks, datas).len() ==> (#[trigger] run_log(
                members,
                oks,
                datas,
            )[i]).client != id,
    decreases oks.len(),
{
    if oks.len() > 0 {
        let prev = oks.drop_last();
        lemma_absent_stays_out(members, prev, datas, id);
        let m = run_members(members, prev);
        let ok = oks.last();
        let d = datas[oks.len() - 1];
        lemma_kept_members(m, ok);
        lemma_sent_follows_kept(m, ok, d);
        let kk = kept(m, ok);
        if has_member(kk, id) {
            let j = choose|j: int| 0 <= j < kk.len() && (#[trigger] kk[j]).id == id;
            let i = choose|i: int| 0 <= i < m.len() && ok[i] && #[trigger] kk[j] == m[i];
            assert(m[i].id == id);
        }
        let before = run_log(members, prev, datas);
        let step = sent(m, ok, d);
        let log = run_log(members, oks, datas);
        assert(log == before + step);
        assert forall|i: int| 0 <= i < log.len() implies (#[trigger] log[i]).client != id by {
            if i >= before.len() {
                let j = i - before.len();
                assert(log[i] == step[j]);
                let q = choose|q: int| 0 <= q < m.len() && ok[q] && #[trigger] kk[j] == m[q];
                assert(m[q].id != id);
            } else {
                assert(log[i] == before[i]);
            }
        }
    }
}

/// A member evicted by a broadcast gets no delivery from any run of
/// broadcasts after it in which it does not register again.
pub proof fn lemma_evicted_gets_nothing_later(
    members: Seq<Member>,
    ok1: Seq<bool>,
    k: int,
    oks: Seq<Seq<bool>>,
    datas: Seq<Seq<u8>>,
)
    requires
        ids_unique(members),
        ok1.len() == members.len(),
        0 <= k < members.len(),
        !ok1[k],
    ensures
        !has_member(run_members(kept(members, ok1), oks), members[k].id),
        forall|i: int|
            0 <= i < run_log(kept(members, ok1), oks, datas).len() ==> (#[trigger] run_log(
                kept(members, ok1),
                oks,
                datas,
            )[i]).client != members[k].id,
{
    let kk = kept(members, ok1);
    lemma_kept_members(members, ok1);
    if has_member(kk, members[k].id) {
        let j = choose|j: int| 0 <= j < kk.len() && (#[trigger] kk[j]).id == members[k].id;
        let i = choose|i: int| 0 <= i < members.len() && ok1[i] && #[trigger] kk[j] == members[i];
        assert(i != k);
    }
    lemma_absent_stays_out(kk, oks, datas, members[k].id);
}

/// A member whose queue takes every broadcast of a run stays a member and
/// gets each of them: the `t`-th broadcast delivers `datas[t]` to it.
pub proof fn lemma_member_gets_every_broadcast(
    members: Seq<Member>,
    oks: Seq<Seq<bool>>,
    datas: Seq<Seq<u8>>,
    id: Seq<char>,
)
    requires
        has_member(members, id),
        forall|t: int, p: int|
            0 <= t < oks.len() && 0 <= p < run_members(members, oks.subrange(0, t)).len() && (
            #[trigger] run_members(members, oks.subrange(0, t))[p]).id == id ==> #[trigger] oks[t][p],
    ensures
        has_member(run_members(members, oks), id),
        forall|t: int|
            0 <= t < oks.len() ==> #[trigger] sent(
                run_members(members, oks.subrange(0, t)),
                oks[t],
                datas[t],
            ).contains((Delivery { client: id, data: datas[t] })),
    decreases oks.len(),
{
    if oks.len() > 0 {
        let last = oks.len() - 1;
        let prev = oks.drop_last();
        assert forall|t: int, p: int|
            0 <= t < prev.len() && 0 <= p < run_members(members, prev.subrange(0, t)).len() && (
            #[trigger] run_members(members, prev.subrange(0, t))[p]).id == id implies #[trigger] prev[t][p] by {
            assert(prev.subrange(0, t) =~= oks.subrange(0, t));
            assert(prev[t] == oks[t]);
        }
        lemma_member_gets_every_broadcast(members, prev, datas, id);
        let m = run_members(members, prev);
        assert(oks.subrange(0, last) =~= prev);
        let ok = oks[last];
        let p = choose|p: int| 0 <= p < m.len() && (#[trigger] m[p]).id == id;
        assert(ok[p]);
        lemma_kept_members(m, ok);
        let kk = kept(m, ok);
        assert(kk.contains(m[p]));
        let q = choose|q: int| 0 <= q < kk.len() && kk[q] == m[p];
        assert(kk[q].id == id);
        assert(run_members(members, oks) == kk);
        lemma_kept_members(m, ok);
        lemma_sent_follows_kept(m, ok, datas[last]);
        assert(sent(m, ok, datas[last])[q] == Delivery { client: id, data: datas[last] });
        assert forall|t: int| 0 <= t < oks.len() implies #[trigger] sent(
            run_members(members, oks.subrange(0, t)),
            oks[t],
            datas[t],
        ).contains((Delivery { client: id, data: datas[t] })) by {
            if t < last {
                assert(prev.subrange(0, t) =~= oks.subrange(0, t));
                assert(prev[t] == oks[t]);
                assert(sent(run_members(members, prev.subrange(0, t)), prev[t], datas[t]).contains(
                    Delivery { client: id, data: datas[t] },
                ));
            } else {
                assert(sent(m, ok, datas[last])[q] == Delivery { client: id, data: datas[last] });
            }
        }
    }
}

} // verus!
