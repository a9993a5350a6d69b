//! The coordinator: the sole owner of the client registry and the room
//! table. Every mutation arrives as one `Message` and is applied by
//! `handle_message`; the process edge drains the coordinator's inbound
//! channel in arrival order and owns nothing of this state itself.
//!
//! Both tables are association lists keyed by name, with distinct keys.
//! The coordinator keeps the registry and the room table coupled: a client
//! id stands in a room's member set exactly when its record names that
//! room, so it belongs to at most one room at a time, and deregistering a
//! client removes it from every room.
use vstd::prelude::*;
use vstd::string::*;
use super::{Ident, Message, MessageBody};
use crate::alist::{spec_alist_get, spec_keys_distinct, lemma_alist_get_at, lemma_alist_get_index, lemma_alist_get_remove, lemma_alist_get_push};
use crate::text;

verus! {

/// A registered client, as the coordinator holds it.
pub struct Client<H> {
    /// the room the client currently belongs to
    pub room: Option<String>,

    /// the reply handle of the client's session
    pub tx: H,
}

impl<H> Client<H> {
    /// Creates a fresh record for a client in no room.
    pub fn new(tx: H) -> (c: Client<H>)
        ensures
            c.room is None,
            c.tx == tx,
    {
        Client { room: None, tx }
    }
}

/// Whether a sequence of names holds one with the given characters.
pub open spec fn spec_seq_has(ms: Seq<String>, id: Seq<char>) -> bool {
    exists|i: int| 0 <= i < ms.len() && #[trigger] ms[i]@ == id
}

/// Whether a sequence of names holds no name twice.
pub open spec fn spec_seq_distinct(ms: Seq<String>) -> bool {
    forall|i: int, j: int| 0 <= i < j < ms.len() ==> ms[i]@ != ms[j]@
}

/// `ms` with every occurrence of `id` removed.
pub open spec fn spec_remove_id(ms: Seq<String>, id: Seq<char>) -> Seq<String>
    decreases ms.len(),
{
    if ms.len() == 0 {
        ms
    } else {
        let rest = spec_remove_id(ms.drop_last(), id);
        if ms.last()@ == id {
            rest
        } else {
            rest.push(ms.last())
        }
    }
}

/// What removal of a name does to membership and distinctness.
proof fn lemma_remove_id_members(ms: Seq<String>, id: Seq<char>)
    ensures
        forall|k: Seq<char>|
            #[trigger] spec_seq_has(spec_remove_id(ms, id), k) <==> (spec_seq_has(ms, k) && k
                != id),
        spec_seq_distinct(ms) ==> spec_seq_distinct(spec_remove_id(ms, id)),
    decreases ms.len(),
{
    if ms.len() > 0 {
        let dl = ms.drop_last();
        lemma_remove_id_members(dl, id);
        let rest = spec_remove_id(dl, id);
        let cur = spec_remove_id(ms, id);
        assert forall|k: Seq<char>| spec_seq_has(ms, k) implies (spec_seq_has(dl, k)
            || ms.last()@ == k) by {
            let i = choose|i: int| 0 <= i < ms.len() && #[trigger] ms[i]@ == k;
            if i < ms.len() - 1 {
                assert(dl[i]@ == k);
            }
        }
        assert forall|k: Seq<char>| spec_seq_has(dl, k) implies spec_seq_has(ms, k) by {
            let i = choose|i: int| 0 <= i < dl.len() && #[trigger] dl[i]@ == k;
            assert(ms[i]@ == k);
        }
        if spec_seq_distinct(ms) {
            assert forall|a: int, b: int| 0 <= a < b < dl.len() implies dl[a]@ != dl[b]@ by {
                assert(dl[a] == ms[a] && dl[b] == ms[b]);
            }
            assert(spec_seq_distinct(dl));
        }
        if ms.last()@ == id {
            assert(cur == rest);
            assert forall|k: Seq<char>|
                #[trigger] spec_seq_has(spec_remove_id(ms, id), k) <==> (spec_seq_has(ms, k) && k
                    != id) by {
                if spec_seq_has(cur, k) {
                    assert(spec_seq_has(dl, k) && k != id);
                }
                if spec_seq_has(ms, k) && k != id {
                    assert(spec_seq_has(dl, k));
                }
            }
        } else {
            assert(cur == rest.push(ms.last()));
            lemma_seq_has_push(rest, ms.last());
            assert forall|k: Seq<char>|
                #[trigger] spec_seq_has(spec_remove_id(ms, id), k) <==> (spec_seq_has(ms, k) && k
                    != id) by {
                if spec_seq_has(cur, k) {
                    assert(spec_seq_has(rest, k) || ms.last()@ == k);
                }
                if spec_seq_has(ms, k) && k != id {
                    assert(spec_seq_has(dl, k) || ms.last()@ == k);
                }
            }
            if spec_seq_distinct(ms) {
                assert(!spec_seq_has(dl, ms.last()@)) by {
                    if spec_seq_has(dl, ms.last()@) {
                        let a = choose|a: int|
                            0 <= a < dl.len() && #[trigger] dl[a]@ == ms.last()@;
                        assert(ms[a]@ == ms[ms.len() - 1]@);
                        assert(false);
                    }
                }
                assert(!spec_seq_has(rest, ms.last()@));
                assert(spec_seq_distinct(cur));
            }
        }
    }
}

/// Membership after appending one name.
proof fn lemma_seq_has_push(ms: Seq<String>, x: String)
    ensures
        forall|k: Seq<char>| #[trigger] spec_seq_has(ms.push(x), k) <==> (spec_seq_has(ms, k) || x@ == k),
        spec_seq_distinct(ms) && !spec_seq_has(ms, x@) ==> spec_seq_distinct(ms.push(x)),
{
    assert forall|k: Seq<char>| #[trigger] spec_seq_has(ms.push(x), k) implies (spec_seq_has(ms, k)
        || x@ == k) by {
        let i = choose|i: int| 0 <= i < ms.push(x).len() && #[trigger] ms.push(x)[i]@ == k;
        if i < ms.len() {
            assert(ms[i]@ == k);
        }
    }
    assert forall|k: Seq<char>| (spec_seq_has(ms, k) || x@ == k) implies #[trigger] spec_seq_has(
        ms.push(x),
        k,
    ) by {
        if spec_seq_has(ms, k) {
            let i = choose|i: int| 0 <= i < ms.len() && #[trigger] ms[i]@ == k;
            assert(ms.push(x)[i]@ == k);
        } else {
            assert(ms.push(x)[ms.len() as int]@ == k);
        }
    }
    if spec_seq_distinct(ms) && !spec_seq_has(ms, x@) {
        assert forall|a: int, b: int| 0 <= a < b < ms.push(x).len() implies ms.push(x)[a]@
            != ms.push(x)[b]@ by {
            if b == ms.len() {
                assert(ms[a]@ != x@);
            }
        }
    }
}

/// What purging a name from every room does to each room's lookup.
proof fn lemma_purge_get(
    gs2: Seq<(String, Vec<String>)>,
    gs: Seq<(String, Vec<String>)>,
    id: Seq<char>,
)
    requires
        gs2.len() == gs.len(),
        forall|i: int| 0 <= i < gs.len() ==> #[trigger] gs2[i].0@ == gs[i].0@,
        forall|i: int|
            0 <= i < gs.len() ==> #[trigger] gs2[i].1@ == spec_remove_id(gs[i].1@, id),
    ensures
        forall|room: Seq<char>|
            match #[trigger] spec_alist_get(gs, room) {
                Some(v) => spec_alist_get(gs2, room) matches Some(v2) && v2@ == spec_remove_id(
                    v@,
                    id,
                ),
                None => spec_alist_get(gs2, room) is None,
            },
    decreases gs.len(),
{
    if gs.len() > 0 {
        assert forall|i: int|
            0 <= i < gs.drop_first().len() implies #[trigger] gs2.drop_first()[i].0@
            == gs.drop_first()[i].0@ && gs2.drop_first()[i].1@ == spec_remove_id(
            gs.drop_first()[i].1@,
            id,
        ) by {
            assert(gs2.drop_first()[i] == gs2[i + 1]);
            assert(gs.drop_first()[i] == gs[i + 1]);
        }
        lemma_purge_get(gs2.drop_first(), gs.drop_first(), id);
        assert(gs2[0].0@ == gs[0].0@);
        assert(gs2[0].1@ == spec_remove_id(gs[0].1@, id));
        assert forall|room: Seq<char>|
            match #[trigger] spec_alist_get(gs, room) {
                Some(v) => spec_alist_get(gs2, room) matches Some(v2) && v2@ == spec_remove_id(
                    v@,
                    id,
                ),
                None => spec_alist_get(gs2, room) is None,
            } by {
            if gs[0].0@ == room {
                assert(spec_alist_get(gs, room) == Some(gs[0].1));
                assert(spec_alist_get(gs2, room) == Some(gs2[0].1));
            } else {
                assert(spec_alist_get(gs, room) == spec_alist_get(gs.drop_first(), room));
                assert(spec_alist_get(gs2, room) == spec_alist_get(gs2.drop_first(), room));
            }
        }
    }
}

/// The coordinator's state: the client registry and the room table.
pub struct Coordinator<H> {
    clients: Vec<(String, Client<H>)>,
    groups: Vec<(String, Vec<String>)>,
}

impl<H> Coordinator<H> {
    /// The record registered under an id, if any.
    pub closed spec fn spec_client(&self, id: Seq<char>) -> Option<Client<H>> {
        spec_alist_get(self.clients@, id)
    }

    /// The member names of a room, if the room exists.
    pub closed spec fn spec_members(&self, room: Seq<char>) -> Option<Seq<String>> {
        match spec_alist_get(self.groups@, room) {
            Some(v) => Some(v@),
            None => None,
        }
    }

    /// Whether the room table holds the room at all.
    pub open spec fn spec_has_room(&self, room: Seq<char>) -> bool {
        self.spec_members(room) is Some
    }

    /// Whether the room table associates `id` with `room`.
    pub open spec fn spec_in_room(&self, room: Seq<char>, id: Seq<char>) -> bool {
        match self.spec_members(room) {
            Some(ms) => spec_seq_has(ms, id),
            None => false,
        }
    }

    /// Well-formedness: distinct client ids, distinct room names, no room
    /// listing a member twice, and the two tables coupled — every member
    /// of a room is a registered client whose record names that room, and
    /// every record naming a room stands in that room's member set.
    pub closed spec fn wf(&self) -> bool {
        &&& spec_keys_distinct(self.clients@)
        &&& spec_keys_distinct(self.groups@)
        &&& forall|gi: int|
            0 <= gi < self.groups@.len() ==> spec_seq_distinct(#[trigger] self.groups@[gi].1@)
        &&& forall|gi: int, mi: int|
            0 <= gi < self.groups@.len() && 0 <= mi < self.groups@[gi].1@.len()
                ==> ((#[trigger] spec_alist_get(self.clients@, self.groups@[gi].1@[mi]@))
                matches Some(c) && (c.room matches Some(r) && r@ == self.groups@[gi].0@))
        &&& forall|ci: int|
            0 <= ci < self.clients@.len() ==> ((#[trigger] self.clients@[ci].1.room)
                matches Some(r) ==> self.spec_in_room(r@, self.clients@[ci].0@))
    }

    /// Creates a coordinator owning an empty registry and an empty room
    /// table.
    pub fn new() -> (c: Coordinator<H>)
        ensures
            c.wf(),
            forall|id: Seq<char>| c.spec_client(id) is None,
            forall|room: Seq<char>| !c.spec_has_room(room),
    {
        Coordinator { clients: Vec::new(), groups: Vec::new() }
    }

    /// The index of a client entry, scanning in registration order.
    fn find_client(&self, id: &str) -> (r: Option<usize>)
        ensures
            r is None ==> self.spec_client(id@) is None,
            r matches Some(i) ==> i < self.clients@.len() && self.clients@[i as int].0@ == id@
                && self.spec_client(id@) == Some(self.clients@[i as int].1),
    {
        let n = self.clients.len();
        proof {
            assert(self.clients@.subrange(0, n as int) =~= self.clients@);
        }
        let mut i: usize = 0;
        while i < n
            invariant
                i <= n,
                n == self.clients@.len(),
                spec_alist_get(self.clients@, id@) == spec_alist_get(
                    self.clients@.subrange(i as int, n as int),
                    id@,
                ),
            decreases n - i,
        {
            if text::str_equal(self.clients[i].0.as_str(), id) {
                proof {
                    let tail = self.clients@.subrange(i as int, n as int);
                    assert(tail[0] == self.clients@[i as int]);
                }
                return Some(i);
            }
            proof {
                let tail = self.clients@.subrange(i as int, n as int);
                assert(tail[0] == self.clients@[i as int]);
                assert(tail.drop_first() =~= self.clients@.subrange(i + 1, n as int));
            }
            i = i + 1;
        }
        proof {
            assert(self.clients@.subrange(n as int, n as int) =~= Seq::<(String, Client<H>)>::empty());
        }
        None
    }

    /// The index of a room entry.
    fn find_group(&self, room: &str) -> (r: Option<usize>)
        ensures
            r is None ==> spec_alist_get(self.groups@, room@) is None,
            r matches Some(i) ==> i < self.groups@.len() && self.groups@[i as int].0@ == room@
                && spec_alist_get(self.groups@, room@) == Some(self.groups@[i as int].1),
    {
        let n = self.groups.len();
        proof {
            assert(self.groups@.subrange(0, n as int) =~= self.groups@);
        }
        let mut i: usize = 0;
        while i < n
            invariant
                i <= n,
                n == self.groups@.len(),
                spec_alist_get(self.groups@, room@) == spec_alist_get(
                    self.groups@.subrange(i as int, n as int),
                    room@,
                ),
            decreases n - i,
        {
            if text::str_equal(self.groups[i].0.as_str(), room) {
                proof {
                    let tail = self.groups@.subrange(i as int, n as int);
                    assert(tail[0] == self.groups@[i as int]);
                }
                return Some(i);
            }
            proof {
                let tail = self.groups@.subrange(i as int, n as int);
                assert(tail[0] == self.groups@[i as int]);
                assert(tail.drop_first() =~= self.groups@.subrange(i + 1, n as int));
            }
            i = i + 1;
        }
        proof {
            assert(self.groups@.subrange(n as int, n as int) =~= Seq::<(String, Vec<String>)>::empty());
        }
        None
    }

    /// Removes `id` from every room's member set; the rooms themselves
    /// stay.
    fn purge_member(&mut self, id: &str)
        ensures
            final(self).clients == old(self).clients,
            final(self).groups@.len() == old(self).groups@.len(),
            forall|i: int|
                0 <= i < old(self).groups@.len() ==> #[trigger] final(self).groups@[i].0 == old(
                    self,
                ).groups@[i].0,
            forall|i: int|
                0 <= i < old(self).groups@.len() ==> #[trigger] final(self).groups@[i].1@
                    == spec_remove_id(old(self).groups@[i].1@, id@),
    {
        let n = self.groups.len();
        let mut gi: usize = 0;
        while gi < n
            invariant
                gi <= n,
                n == self.groups@.len(),
                self.clients == old(self).clients,
                forall|i: int|
                    0 <= i < n ==> #[trigger] self.groups@[i].0 == old(self).groups@[i].0,
                forall|i: int|
                    0 <= i < gi ==> #[trigger] self.groups@[i].1@ == spec_remove_id(
                        old(self).groups@[i].1@,
                        id@,
                    ),
                forall|i: int|
                    gi <= i < n ==> #[trigger] self.groups@[i].1 == old(self).groups@[i].1,
            decreases n - gi,
        {
            let mut entry = self.groups.remove(gi);
            let m = entry.1.len();
            let mut kept: Vec<String> = Vec::new();
            let mut mj: usize = 0;
            while mj < m
                invariant
                    mj <= m,
                    m == entry.1@.len(),
                    kept@ == spec_remove_id(entry.1@.subrange(0, mj as int), id@),
                decreases m - mj,
            {
                proof {
                    let pre = entry.1@.subrange(0, mj + 1);
                    assert(pre.drop_last() =~= entry.1@.subrange(0, mj as int));
                    assert(pre.last() == entry.1@[mj as int]);
                }
                if !text::str_equal(entry.1[mj].as_str(), id) {
                    kept.push(entry.1[mj].clone());
                }
                mj = mj + 1;
            }
            proof {
                assert(entry.1@.subrange(0, m as int) =~= entry.1@);
            }
            entry.1 = kept;
            self.groups.insert(gi, entry);
            proof {
                assert forall|i: int| 0 <= i < n implies #[trigger] self.groups@[i].0 == old(
                    self,
                ).groups@[i].0 by {}
            }
            gi = gi + 1;
        }
    }

    /// Deregisters a client: its record leaves the registry and its id
    /// leaves every room's member set. Deregistering an id that was never
    /// registered, or was already deregistered, changes nothing.
    pub fn close(&mut self, id: &str)
        requires
            old(self).wf(),
        ensures
            final(self).wf(),
            final(self).spec_client(id@) is None,
            forall|k: Seq<char>|
                k != id@ ==> #[trigger] final(self).spec_client(k) == old(self).spec_client(k),
            forall|room: Seq<char>|
                #[trigger] final(self).spec_has_room(room) == old(self).spec_has_room(room),
            forall|room: Seq<char>, k: Seq<char>|
                #[trigger] final(self).spec_in_room(room, k) <==> (old(self).spec_in_room(room, k)
                    && k != id@),
    {
        let found = self.find_client(id);
        match found {
            Option::None => {
                proof {
                    lemma_alist_get_index(self.clients@, id@);
                    assert forall|room: Seq<char>, k: Seq<char>|
                        #[trigger] self.spec_in_room(room, k) implies (old(self).spec_in_room(
                        room,
                        k,
                    ) && k != id@) by {
                        if k == id@ {
                            lemma_alist_get_index(self.groups@, room);
                            match spec_alist_get(self.groups@, room) {
                                Option::Some(v) => {
                                let gi = choose|gi: int|
                                    0 <= gi < self.groups@.len() && #[trigger] self.groups@[gi].0@
                                        == room && self.groups@[gi].1 == v;
                                let mi = choose|mi: int|
                                    0 <= mi < v@.len() && #[trigger] v@[mi]@ == k;
                                assert(spec_alist_get(
                                    self.clients@,
                                    self.groups@[gi].1@[mi]@,
                                ) is Some);
                                },
                                _ => {},
                            }
                        }
                    }
                }
            },
            Option::Some(i) => {
                let entry = self.clients.remove(i);
                proof {
                    lemma_alist_get_remove(old(self).clients@, i as int);
                }
                self.purge_member(id);
                proof {
                    let mid = self.clients@;
                    lemma_purge_get(self.groups@, old(self).groups@, id@);
                    assert forall|gi: int|
                        0 <= gi < self.groups@.len() implies spec_seq_distinct(
                        #[trigger] self.groups@[gi].1@,
                    ) by {
                        lemma_remove_id_members(old(self).groups@[gi].1@, id@);
                    }
                    assert forall|room: Seq<char>, k: Seq<char>|
                        #[trigger] self.spec_in_room(room, k) <==> (old(self).spec_in_room(room, k)
                            && k != id@) by {
                        lemma_alist_get_index(old(self).groups@, room);
                        match spec_alist_get(old(self).groups@, room) {
                            Option::Some(v) => {
                            lemma_remove_id_members(v@, id@);
                            },
                            _ => {},
                        }
                    }
                    assert forall|gi: int, mi: int|
                        0 <= gi < self.groups@.len() && 0 <= mi
                            < self.groups@[gi].1@.len() implies (#[trigger] spec_alist_get(
                        self.clients@,
                        self.groups@[gi].1@[mi]@,
                    )) matches Some(c) && (c.room matches Some(r) && r@
                        == self.groups@[gi].0@) by {
                        let m = self.groups@[gi].1@[mi]@;
                        lemma_remove_id_members(old(self).groups@[gi].1@, id@);
                        assert(spec_seq_has(self.groups@[gi].1@, m));
                        assert(spec_seq_has(old(self).groups@[gi].1@, m) && m != id@);
                        let omi = choose|omi: int|
                            0 <= omi < old(self).groups@[gi].1@.len()
                                && #[trigger] old(self).groups@[gi].1@[omi]@ == m;
                        assert(spec_alist_get(old(self).clients@, m) matches Some(c) && (
                        c.room matches Some(r) && r@ == old(self).groups@[gi].0@));
                    }
                    assert forall|ci: int|
                        0 <= ci < self.clients@.len() implies ((
                        #[trigger] self.clients@[ci].1.room) matches Some(r)
                            ==> self.spec_in_room(r@, self.clients@[ci].0@)) by {
                        let oci = if ci < i as int {
                            ci
                        } else {
                            ci + 1
                        };
                        assert(self.clients@[ci] == old(self).clients@[oci]);
                        match self.clients@[ci].1.room {
                            Option::Some(r) => {
                            assert(old(self).spec_in_room(r@, old(self).clients@[oci].0@));
                            assert(old(self).clients@[oci].0@ != id@);
                            },
                            _ => {},
                        }
                    }
                }
            },
        }
    }

    /// Registers a client under its supplied id with a fresh record in no
    /// room. A pre-existing record under the same id is overwritten —
    /// last writer wins — and the overwritten record's room membership is
    /// cleaned up.
    /// Registers a client under its supplied id with a fresh record in no
    /// room. A pre-existing record under the same id is overwritten —
    /// last writer wins — and the overwritten record's room membership is
    /// cleaned up.
    pub fn identify(&mut self, ident: Ident<H>)
        requires
            old(self).wf(),
        ensures
            final(self).wf(),
            final(self).spec_client(ident.id@) matches Some(c) && c.room is None && c.tx
                == ident.tx,
            forall|k: Seq<char>|
                k != ident.id@ ==> #[trigger] final(self).spec_client(k) == old(self).spec_client(
                    k,
                ),
            forall|room: Seq<char>|
                #[trigger] final(self).spec_has_room(room) == old(self).spec_has_room(room),
            forall|room: Seq<char>, k: Seq<char>|
                #[trigger] final(self).spec_in_room(room, k) <==> (old(self).spec_in_room(room, k)
                    && k != ident.id@),
    {
        self.close(ident.id.as_str());
        let ghost mid = *self;
        let record = Client::new(ident.tx);
        proof {
            lemma_alist_get_index(mid.clients@, ident.id@);
            lemma_alist_get_push(mid.clients@, (ident.id, record));
        }
        self.clients.push((ident.id, record));
        proof {
            let post = *self;
            assert(post.groups == mid.groups);
            assert(post.clients@ == mid.clients@.push((ident.id, record)));
            assert(post.spec_client(ident.id@) == Some(record));
            assert forall|k: Seq<char>|
                k != ident.id@ implies #[trigger] post.spec_client(k) == old(self).spec_client(
                k,
            ) by {
                assert(spec_alist_get(post.clients@, k) == spec_alist_get(mid.clients@, k));
                assert(mid.spec_client(k) == old(self).spec_client(k));
            }
            assert forall|room: Seq<char>|
                #[trigger] post.spec_has_room(room) == old(self).spec_has_room(room) by {
                assert(post.spec_has_room(room) == mid.spec_has_room(room));
                assert(mid.spec_has_room(room) == old(self).spec_has_room(room));
            }
            assert forall|room: Seq<char>, k: Seq<char>|
                #[trigger] post.spec_in_room(room, k) <==> (old(self).spec_in_room(room, k) && k
                    != ident.id@) by {
                assert(post.spec_in_room(room, k) == mid.spec_in_room(room, k));
                assert(mid.spec_in_room(room, k) <==> (old(self).spec_in_room(room, k) && k
                    != ident.id@));
            }
            assert forall|gi: int, mi: int|
                0 <= gi < post.groups@.len() && 0 <= mi
                    < post.groups@[gi].1@.len() implies (#[trigger] spec_alist_get(
                post.clients@,
                post.groups@[gi].1@[mi]@,
            )) matches Some(c) && (c.room matches Some(r) && r@ == post.groups@[gi].0@) by {
                let m = post.groups@[gi].1@[mi]@;
                assert(spec_alist_get(mid.clients@, m) matches Some(c) && (c.room matches Some(r)
                    && r@ == mid.groups@[gi].0@));
                assert(m != ident.id@);
            }
            assert forall|ci: int|
                0 <= ci < post.clients@.len() implies ((#[trigger] post.clients@[ci].1.room)
                matches Some(r) ==> post.spec_in_room(r@, post.clients@[ci].0@)) by {
                if ci < post.clients@.len() - 1 {
                    assert(post.clients@[ci] == mid.clients@[ci]);
                    match post.clients@[ci].1.room {
                        Option::Some(r) => {
                        assert(mid.spec_in_room(r@, mid.clients@[ci].0@));
                        assert(post.spec_in_room(r@, post.clients@[ci].0@));
                        },
                        _ => {},
                    }
                } else {
                    assert(post.clients@[ci].1.room is None);
                }
            }
        }
    }

    /// Attaches a registered client to the named room: its record now
    /// names that room, its id joins that room's member set, and it
    /// leaves any room it was in before — a client belongs to at most one
    /// room. The room is created when absent. An id with no registered
    /// record changes nothing.
    pub fn attach_to_group(&mut self, id: &str, group: String)
        requires
            old(self).wf(),
        ensures
            final(self).wf(),
            old(self).spec_client(id@) is None ==> *final(self) == *old(self),
            old(self).spec_client(id@) matches Some(c0) ==> (final(self).spec_client(id@)
                matches Some(c) && (c.room matches Some(r) && r@ == group@) && c.tx == c0.tx) && (
            forall|k: Seq<char>|
                k != id@ ==> #[trigger] final(self).spec_client(k) == old(self).spec_client(k)) && (
            forall|room: Seq<char>|
                #[trigger] final(self).spec_in_room(room, id@) <==> room == group@) && (forall|
                room: Seq<char>,
                k: Seq<char>,
            |
                k != id@ ==> (#[trigger] final(self).spec_in_room(room, k) == old(
                    self,
                ).spec_in_room(room, k))) && (forall|room: Seq<char>|
                #[trigger] final(self).spec_has_room(room) == (old(self).spec_has_room(room)
                    || room == group@)),
    {
        let found = self.find_client(id);
        let i = match found {
            Option::None => {
                return ;
            },
            Option::Some(i) => i,
        };
        proof {
            lemma_alist_get_remove(old(self).clients@, i as int);
        }
        let mut pair = self.clients.remove(i);
        self.purge_member(id);
        let ghost pre = *old(self);
        let ghost c0 = pre.clients@[i as int].1;
        pair.1.room = Some(group.clone());
        let member = String::from_str(id);
        let ghost gmember = member;
        let ghost cnew = pair.1;
        proof {
            lemma_alist_get_index(self.clients@, id@);
            lemma_alist_get_push(self.clients@, (pair.0, pair.1));
        }
        self.clients.push(pair);
        let ghost mid = *self;
        proof {
            // lookups after remove(i) + purge + push
            lemma_purge_get(mid.groups@, pre.groups@, id@);
            assert forall|a: int, b: int|
                0 <= a < b < mid.groups@.len() implies mid.groups@[a].0@ != mid.groups@[b].0@ by {
                assert(mid.groups@[a].0 == pre.groups@[a].0);
                assert(mid.groups@[b].0 == pre.groups@[b].0);
            }
            assert(spec_keys_distinct(mid.groups@));
            assert(spec_alist_get(mid.clients@, id@) == Some(cnew));
            assert(cnew.room matches Some(r) && r@ == group@);
            assert(cnew.tx == c0.tx);
            assert forall|k: Seq<char>|
                k != id@ implies #[trigger] spec_alist_get(mid.clients@, k) == spec_alist_get(
                pre.clients@,
                k,
            ) by {}
            assert(spec_keys_distinct(mid.clients@));
        }
        let gfound = self.find_group(group.as_str());
        let ghost mut gnew: (String, Vec<String>) = arbitrary();
        let ghost mut ggi: int = 0;
        match gfound {
            Option::None => {
                proof {
                    lemma_alist_get_index(mid.groups@, group@);
                }
                let mut members: Vec<String> = Vec::new();
                members.push(member);
                proof {
                    gnew = (group, members);
                    lemma_alist_get_push(mid.groups@, (group, members));
                }
                self.groups.push((group, members));
            },
            Option::Some(gi) => {
                proof {
                    lemma_alist_get_remove(mid.groups@, gi as int);
                }
                let mut gentry = self.groups.remove(gi);
                gentry.1.push(member);
                proof {
                    gnew = gentry;
                    ggi = gi as int;
                    let base = mid.groups@.remove(gi as int);
                    lemma_alist_get_index(base, group@);
                    lemma_alist_get_push(base, gentry);
                }
                self.groups.push(gentry);
            },
        }
        proof {
            let post = *self;
            let ghost case_new = spec_alist_get(mid.groups@, group@) is None;
            // room lookups of the final state, key by key
            assert forall|room: Seq<char>|
                room != group@ implies #[trigger] spec_alist_get(post.groups@, room)
                == spec_alist_get(mid.groups@, room) by {
                if case_new {
                    assert(post.groups@ == mid.groups@.push(gnew));
                } else {
                    assert(post.groups@ == mid.groups@.remove(ggi).push(gnew));
                    assert(spec_alist_get(mid.groups@.remove(ggi).push(gnew), room)
                        == spec_alist_get(mid.groups@.remove(ggi), room));
                    assert(spec_alist_get(mid.groups@.remove(ggi), room) == spec_alist_get(
                        mid.groups@,
                        room,
                    ));
                }
            }
            assert(spec_keys_distinct(post.groups@));
            // membership relations
            assert forall|room: Seq<char>|
                #[trigger] post.spec_in_room(room, id@) <==> room == group@ by {
                if room == group@ {
                    if case_new {
                        let ms = post.spec_members(room).unwrap();
                        assert(ms[0]@ == id@);
                        assert(spec_seq_has(ms, id@));
                    } else {
                        let ms = post.spec_members(room).unwrap();
                        assert(ms[ms.len() - 1]@ == id@);
                        assert(spec_seq_has(ms, id@));
                    }
                } else {
                    assert(spec_alist_get(post.groups@, room) == spec_alist_get(
                        mid.groups@,
                        room,
                    ));
                    match spec_alist_get(pre.groups@, room) {
                        Option::Some(ov) => {
                            lemma_remove_id_members(ov@, id@);
                            assert(spec_alist_get(mid.groups@, room) matches Some(v) && v@
                                == spec_remove_id(ov@, id@));
                        },
                        Option::None => {
                            assert(spec_alist_get(mid.groups@, room) is None);
                        },
                    }
                }
            }
            assert forall|room: Seq<char>, k: Seq<char>|
                k != id@ implies (#[trigger] post.spec_in_room(room, k) == pre.spec_in_room(
                room,
                k,
            )) by {
                if room == group@ {
                    if case_new {
                        let ms = post.spec_members(room).unwrap();
                        if spec_seq_has(ms, k) {
                            let j = choose|j: int| 0 <= j < ms.len() && #[trigger] ms[j]@ == k;
                            assert(ms[0]@ == id@);
                            assert(false);
                        }
                        match spec_alist_get(pre.groups@, room) {
                            Option::Some(ov) => {
                                assert(spec_alist_get(mid.groups@, room) matches Some(v2));
                                assert(false);
                            },
                            Option::None => {},
                        }
                        assert(!pre.spec_in_room(room, k));
                    } else {
                        let ms = post.spec_members(room).unwrap();
                        let mv = spec_alist_get(mid.groups@, room).unwrap();
                        assert(ms == mv@.push(gmember));
                        lemma_seq_has_push(mv@, gmember);
                        let ov = spec_alist_get(pre.groups@, room).unwrap();
                        assert(mv@ == spec_remove_id(ov@, id@));
                        lemma_remove_id_members(ov@, id@);
                        assert(spec_seq_has(ms, k) <==> spec_seq_has(mv@, k));
                        assert(spec_seq_has(mv@, k) <==> spec_seq_has(ov@, k));
                    }
                } else {
                    assert(spec_alist_get(post.groups@, room) == spec_alist_get(
                        mid.groups@,
                        room,
                    ));
                    match spec_alist_get(pre.groups@, room) {
                        Option::Some(ov) => {
                            lemma_remove_id_members(ov@, id@);
                            assert(spec_alist_get(mid.groups@, room) matches Some(v) && v@
                                == spec_remove_id(ov@, id@));
                        },
                        Option::None => {
                            assert(spec_alist_get(mid.groups@, room) is None);
                        },
                    }
                }
            }
            assert forall|room: Seq<char>|
                #[trigger] post.spec_has_room(room) == (pre.spec_has_room(room) || room
                    == group@) by {
                if room != group@ {
                    assert(spec_alist_get(post.groups@, room) == spec_alist_get(
                        mid.groups@,
                        room,
                    ));
                    match spec_alist_get(pre.groups@, room) {
                        Option::Some(ov) => {
                            assert(spec_alist_get(mid.groups@, room) is Some);
                        },
                        Option::None => {
                            assert(spec_alist_get(mid.groups@, room) is None);
                        },
                    }
                }
            }
            // members stay duplicate free
            assert forall|gi2: int|
                0 <= gi2 < post.groups@.len() implies spec_seq_distinct(
                #[trigger] post.groups@[gi2].1@,
            ) by {
                lemma_alist_get_at(post.groups@, gi2);
                let room = post.groups@[gi2].0@;
                let ms = post.groups@[gi2].1@;
                if room == group@ {
                    if case_new {
                        assert(ms.len() == 1);
                    } else {
                        let mv = spec_alist_get(mid.groups@, room).unwrap();
                        assert(ms == mv@.push(gmember));
                        let ov = spec_alist_get(pre.groups@, room).unwrap();
                        assert(mv@ == spec_remove_id(ov@, id@));
                        lemma_alist_get_index(pre.groups@, room);
                        let ogi = choose|ogi: int|
                            0 <= ogi < pre.groups@.len() && #[trigger] pre.groups@[ogi].0@
                                == room && pre.groups@[ogi].1 == ov;
                        assert(spec_seq_distinct(pre.groups@[ogi].1@));
                        lemma_remove_id_members(ov@, id@);
                        assert(!spec_seq_has(mv@, id@)) by {
                            if spec_seq_has(mv@, id@) {
                                assert(spec_seq_has(spec_remove_id(ov@, id@), id@));
                            }
                        }
                        lemma_seq_has_push(mv@, gmember);
                    }
                } else {
                    assert(spec_alist_get(post.groups@, room) == spec_alist_get(
                        mid.groups@,
                        room,
                    ));
                    assert(spec_alist_get(post.groups@, room) == Some(post.groups@[gi2].1));
                    let mv = spec_alist_get(mid.groups@, room).unwrap();
                    match spec_alist_get(pre.groups@, room) {
                        Option::Some(ov) => {
                            assert(mv@ == spec_remove_id(ov@, id@));
                            lemma_alist_get_index(pre.groups@, room);
                            let ogi = choose|ogi: int|
                                0 <= ogi < pre.groups@.len() && #[trigger] pre.groups@[ogi].0@
                                    == room && pre.groups@[ogi].1 == ov;
                            assert(spec_seq_distinct(pre.groups@[ogi].1@));
                            lemma_remove_id_members(ov@, id@);
                        },
                        Option::None => {
                            assert(false);
                        },
                    }
                }
            }
            // the two couplings
            assert forall|gi2: int, mi: int|
                0 <= gi2 < post.groups@.len() && 0 <= mi
                    < post.groups@[gi2].1@.len() implies (#[trigger] spec_alist_get(
                post.clients@,
                post.groups@[gi2].1@[mi]@,
            )) matches Some(c) && (c.room matches Some(r) && r@ == post.groups@[gi2].0@) by {
                lemma_alist_get_at(post.groups@, gi2);
                let room = post.groups@[gi2].0@;
                let m = post.groups@[gi2].1@[mi]@;
                assert(spec_seq_has(post.groups@[gi2].1@, m));
                assert(post.spec_in_room(room, m));
                if m == id@ {
                    assert(room == group@);
                } else {
                    assert(pre.spec_in_room(room, m));
                    lemma_alist_get_index(pre.groups@, room);
                    let ov = spec_alist_get(pre.groups@, room).unwrap();
                    let ogi = choose|ogi: int|
                        0 <= ogi < pre.groups@.len() && #[trigger] pre.groups@[ogi].0@ == room
                            && pre.groups@[ogi].1 == ov;
                    let omi = choose|omi: int| 0 <= omi < ov@.len() && #[trigger] ov@[omi]@ == m;
                    assert(spec_alist_get(pre.clients@, pre.groups@[ogi].1@[omi]@)
                        matches Some(c) && (c.room matches Some(r) && r@
                        == pre.groups@[ogi].0@));
                }
            }
            assert forall|ci: int|
                0 <= ci < post.clients@.len() implies ((#[trigger] post.clients@[ci].1.room)
                matches Some(r) ==> post.spec_in_room(r@, post.clients@[ci].0@)) by {
                match post.clients@[ci].1.room {
                    Option::Some(r) => {
                    if ci == post.clients@.len() - 1 {
                        assert(post.clients@[ci].0@ == id@);
                        assert(r@ == group@);
                        assert(post.spec_in_room(group@, id@));
                    } else {
                        let oci = if ci < i as int {
                            ci
                        } else {
                            ci + 1
                        };
                        assert(post.clients@[ci] == pre.clients@[oci]);
                        assert(pre.spec_in_room(r@, pre.clients@[oci].0@));
                        assert(pre.clients@[oci].0@ != id@) by {
                            if oci != i as int {
                                assert(spec_keys_distinct(pre.clients@));
                            }
                        }
                        assert(post.spec_in_room(r@, post.clients@[ci].0@));
                    }
                    },
                    _ => {},
                }
            }
        }
    }
}

impl<H> Coordinator<H> {
    /// Applies one message from a session, the coordinator's only entry
    /// point for mutation: `CLOSE` deregisters the sender, `IDENTIFY`
    /// registers it under its supplied id, `AttachToGroup` attaches the
    /// sender's id to the named room. A message about an unknown id never
    /// fails: `CLOSE` and `AttachToGroup` for an unregistered id leave the
    /// state unchanged.
    pub fn handle_message(&mut self, msg: Message<H>)
        requires
            old(self).wf(),
        ensures
            final(self).wf(),
            msg.message is CLOSE ==> final(self).spec_client(msg.id@) is None && (forall|
                k: Seq<char>,
            |
                k != msg.id@ ==> #[trigger] final(self).spec_client(k) == old(self).spec_client(
                    k,
                )) && (forall|room: Seq<char>, k: Seq<char>|
                #[trigger] final(self).spec_in_room(room, k) <==> (old(self).spec_in_room(room, k)
                    && k != msg.id@)),
            (msg.message matches MessageBody::IDENTIFY(ident) ==> (final(self).spec_client(
                ident.id@,
            ) matches Some(c) && c.room is None && c.tx == ident.tx) && (forall|k: Seq<char>|
                k != ident.id@ ==> #[trigger] final(self).spec_client(k) == old(self).spec_client(
                    k,
                ))),
            (msg.message matches MessageBody::AttachToGroup(g) ==> (old(self).spec_client(msg.id@)
                matches Some(c0) ==> (final(self).spec_client(msg.id@) matches Some(c) && (
            c.room matches Some(r) && r@ == g@) && c.tx == c0.tx) && (forall|room: Seq<char>|
                #[trigger] final(self).spec_in_room(room, msg.id@) <==> room == g@)) && (old(
                self,
            ).spec_client(msg.id@) is None ==> *final(self) == *old(self))),
    {
        match msg.message {
            MessageBody::CLOSE => {
                self.close(msg.id.as_str());
            },
            MessageBody::IDENTIFY(ident) => {
                self.identify(ident);
            },
            MessageBody::AttachToGroup(g) => {
                self.attach_to_group(msg.id.as_str(), g);
            },
        }
    }

    /// Whether a record is registered under the id.
    pub fn is_registered(&self, id: &str) -> (r: bool)
        ensures
            r == (self.spec_client(id@) is Some),
    {
        match self.find_client(id) {
            Option::Some(_) => true,
            Option::None => false,
        }
    }

    /// The room the registered client currently belongs to, if any.
    pub fn client_room(&self, id: &str) -> (r: Option<String>)
        ensures
            self.spec_client(id@) is None ==> r is None,
            self.spec_client(id@) matches Some(c) ==> (match c.room {
                Option::Some(rm) => r matches Some(name) && name@ == rm@,
                Option::None => r is None,
            }),
    {
        match self.find_client(id) {
            Option::Some(i) => match &self.clients[i].1.room {
                Option::Some(rm) => Some(rm.clone()),
                Option::None => None,
            },
            Option::None => None,
        }
    }

    /// The member ids of a room, in attachment order, or nothing when the
    /// room was never created.
    pub fn room_members(&self, room: &str) -> (r: Option<Vec<String>>)
        ensures
            self.spec_members(room@) is None ==> r is None,
            self.spec_members(room@) matches Some(ms) ==> (r matches Some(v) && v@.len()
                == ms.len() && (forall|i: int| 0 <= i < ms.len() ==> #[trigger] v@[i]@ == ms[i]@)),
    {
        match self.find_group(room) {
            Option::Some(gi) => {
                let src = &self.groups[gi].1;
                let n = src.len();
                let mut v: Vec<String> = Vec::new();
                let mut i: usize = 0;
                while i < n
                    invariant
                        i <= n,
                        n == src@.len(),
                        v@.len() == i,
                        forall|j: int| 0 <= j < i ==> #[trigger] v@[j]@ == src@[j]@,
                    decreases n - i,
                {
                    v.push(src[i].clone());
                    i = i + 1;
                }
                Some(v)
            },
            Option::None => None,
        }
    }
}

/// A client id belongs to at most one room at a time: membership in two
/// rooms forces them to be the same room.
pub proof fn lemma_at_most_one_room<H>(c: &Coordinator<H>, r1: Seq<char>, r2: Seq<char>, id: Seq<char>)
    requires
        c.wf(),
        c.spec_in_room(r1, id),
        c.spec_in_room(r2, id),
    ensures
        r1 == r2,
{
    lemma_room_of_member(c, r1, id);
    lemma_room_of_member(c, r2, id);
}

/// The two tables stay coupled: an id stands in a room's member set
/// exactly when its registered record names that room.
pub proof fn lemma_room_of_member<H>(c: &Coordinator<H>, room: Seq<char>, id: Seq<char>)
    requires
        c.wf(),
        c.spec_in_room(room, id),
    ensures
        c.spec_client(id) matches Some(rec) && (rec.room matches Some(r) && r@ == room),
{
    lemma_alist_get_index(c.groups@, room);
    match spec_alist_get(c.groups@, room) {
        Option::Some(v) => {
            let gi = choose|gi: int|
                0 <= gi < c.groups@.len() && #[trigger] c.groups@[gi].0@ == room
                    && c.groups@[gi].1 == v;
            let mi = choose|mi: int| 0 <= mi < v@.len() && #[trigger] v@[mi]@ == id;
            assert(spec_alist_get(c.clients@, c.groups@[gi].1@[mi]@) matches Some(rec) && (
            rec.room matches Some(r) && r@ == c.groups@[gi].0@));
        },
        Option::None => {},
    }
}

/// A record that names a room is a member of that room.
pub proof fn lemma_member_of_room<H>(c: &Coordinator<H>, id: Seq<char>)
    requires
        c.wf(),
        c.spec_client(id) matches Some(rec) && rec.room is Some,
    ensures
        c.spec_client(id) matches Some(rec) && (rec.room matches Some(r) ==> c.spec_in_room(
            r@,
            id,
        )),
{
    lemma_alist_get_index(c.clients@, id);
    match spec_alist_get(c.clients@, id) {
        Option::Some(rec) => {
            let ci = choose|ci: int|
                0 <= ci < c.clients@.len() && #[trigger] c.clients@[ci].0@ == id
                    && c.clients@[ci].1 == rec;
            assert(c.clients@[ci].1.room == rec.room);
        },
        Option::None => {},
    }
}

/// Sessions close independently: deregistering one client leaves every
/// other client's record and memberships exactly as they were.
pub proof fn lemma_close_independent<H>(
    pre: &Coordinator<H>,
    post: &Coordinator<H>,
    closed: Seq<char>,
    other: Seq<char>,
)
    requires
        other != closed,
        forall|k: Seq<char>|
            k != closed ==> #[trigger] post.spec_client(k) == pre.spec_client(k),
        forall|room: Seq<char>, k: Seq<char>|
            #[trigger] post.spec_in_room(room, k) <==> (pre.spec_in_room(room, k) && k != closed),
    ensures
        post.spec_client(other) == pre.spec_client(other),
        forall|room: Seq<char>|
            #[trigger] post.spec_in_room(room, other) == pre.spec_in_room(room, other),
{
}

} // verus!
