//! Maps keyed by text, and the table of connected client sessions built on one.
use crate::session::Session;
use vstd::prelude::*;

verus! {

/// Whether some entry holds the identifier `k`.
pub open spec fn holds<C>(entries: Seq<(String, C)>, k: Seq<char>) -> bool {
    exists|i: int| 0 <= i < entries.len() && #[trigger] entries[i].0@ == k
}

/// The client stored under `k` (meaningful when some entry holds `k`).
pub open spec fn stored<C>(entries: Seq<(String, C)>, k: Seq<char>) -> C {
    entries[choose|i: int| 0 <= i < entries.len() && #[trigger] entries[i].0@ == k].1
}

/// No two entries hold the same identifier.
pub open spec fn ids_unique<C>(entries: Seq<(String, C)>) -> bool {
    forall|i: int, j: int|
        0 <= i < entries.len() && 0 <= j < entries.len() && i != j
            ==> #[trigger] entries[i].0@ != #[trigger] entries[j].0@
}

/// The clients of the receivers that are connected, in the receivers' order.
pub open spec fn connected_clients<C>(table: Map<Seq<char>, C>, receivers: Seq<Session>) -> Seq<C>
    decreases receivers.len(),
{
    if receivers.len() == 0 {
        Seq::empty()
    } else {
        let rest = connected_clients(table, receivers.drop_last());
        let k = receivers.last().id();
        if table.contains_key(k) {
            rest.push(table[k])
        } else {
            rest
        }
    }
}

/// A map from text keys to values, holding each key once. Its entries are
/// kept in a vector and searched in order: storing under a present key
/// replaces its value in place, a new key is appended, and removing a key
/// moves the entries after it up.
pub struct TextMap<C> {
    entries: Vec<(String, C)>,
}

impl<C> View for TextMap<C> {
    type V = Map<Seq<char>, C>;

    closed spec fn view(&self) -> Map<Seq<char>, C> {
        Map::new(|k: Seq<char>| holds(self.entries@, k), |k: Seq<char>| stored(self.entries@, k))
    }
}

impl<C> TextMap<C> {
    #[verifier::type_invariant]
    closed spec fn inv(&self) -> bool {
        ids_unique(self.entries@)
    }

    /// The empty map.
    pub fn new() -> (t: TextMap<C>)
        ensures
            t@ == Map::<Seq<char>, C>::empty(),
    {
        let t = TextMap { entries: Vec::new() };
        assert(t@ =~= Map::<Seq<char>, C>::empty());
        t
    }

    /// The position of the entry for `key`.
    fn position(&self, key: &String) -> (r: Option<usize>)
        ensures
            match r {
                Some(i) => i < self.entries.len() && self.entries@[i as int].0@ == key@,
                None => !holds(self.entries@, key@),
            },
    {
        let mut i: usize = 0;
        while i < self.entries.len()
            invariant
                i <= self.entries.len(),
                forall|j: int| 0 <= j < i ==> #[trigger] self.entries@[j].0@ != key@,
            decreases self.entries.len() - i,
        {
            if self.entries[i].0 == *key {
                return Some(i);
            }
            i += 1;
        }
        None
    }

    proof fn lemma_lookup(&self, i: int)
        requires
            0 <= i < self.entries.len(),
            ids_unique(self.entries@),
        ensures
            self@.contains_key(self.entries@[i].0@),
            self@[self.entries@[i].0@] == self.entries@[i].1,
    {
        let k = self.entries@[i].0@;
        assert(holds(self.entries@, k));
        let j = choose|j: int| 0 <= j < self.entries@.len() && #[trigger] self.entries@[j].0@ == k;
        assert(j == i);
    }

    /// Whether some entry has `key`.
    pub fn contains(&self, key: &String) -> (b: bool)
        ensures
            b == self@.contains_key(key@),
    {
        self.position(key).is_some()
    }

    /// The value under `key`, if any.
    pub fn get(&self, key: &String) -> (r: Option<&C>)
        ensures
            r is Some <==> self@.contains_key(key@),
            r matches Some(c) ==> *c == self@[key@],
    {
        match self.position(key) {
            Some(i) => {
                proof {
                    use_type_invariant(self);
                    self.lemma_lookup(i as int);
                }
                Some(&self.entries[i].1)
            },
            None => None,
        }
    }

    /// Stores `client` under `key`, handing back the value it replaces.
    pub fn insert(&mut self, key: String, client: C) -> (old_client: Option<C>)
        ensures
            final(self)@ == old(self)@.insert(key@, client),
            old_client is Some <==> old(self)@.contains_key(key@),
            old_client matches Some(c) ==> c == old(self)@[key@],
    {
        proof {
            use_type_invariant(&*self);
        }
        let ghost before = self.entries@;
        let ghost k = key@;
        match self.position(&key) {
            Some(i) => {
                proof {
                    self.lemma_lookup(i as int);
                }
                let mut entries: Vec<(String, C)> = Vec::new();
                std::mem::swap(&mut entries, &mut self.entries);
                let (_, prev) = entries.remove(i);
                entries.insert(i, (key, client));
                proof {
                    assert(entries@ =~= before.update(i as int, (key, client)));
                    assert forall|a: int, b: int|
                        0 <= a < entries@.len() && 0 <= b < entries@.len() && a != b
                        implies #[trigger] entries@[a].0@ != #[trigger] entries@[b].0@ by {
                        if a != i && b != i {
                            assert(entries@[a] == before[a] && entries@[b] == before[b]);
                        } else if a == i {
                            assert(entries@[b] == before[b]);
                        } else {
                            assert(entries@[a] == before[a]);
                        }
                    }
                }
                self.entries = entries;
                proof {
                    let m_old = Map::new(|x: Seq<char>| holds(before, x), |x: Seq<char>| stored(before, x));
                    assert forall|x: Seq<char>| #[trigger] self@.contains_key(x) == m_old.insert(k, client).contains_key(x) by {
                        if x != k {
                            if holds(before, x) {
                                let j = choose|j: int| 0 <= j < before.len() && #[trigger] before[j].0@ == x;
                                assert(self.entries@[j].0@ == x);
                            }
                            if holds(self.entries@, x) {
                                let j = choose|j: int| 0 <= j < self.entries@.len() && #[trigger] self.entries@[j].0@ == x;
                                assert(before[j].0@ == x);
                            }
                        } else {
                            assert(self.entries@[i as int].0@ == k);
                        }
                    }
                    assert forall|x: Seq<char>| self@.contains_key(x) implies #[trigger] self@[x] == m_old.insert(k, client)[x] by {
                        let j = choose|j: int| 0 <= j < self.entries@.len() && #[trigger] self.entries@[j].0@ == x;
                        self.lemma_lookup(j);
                        if x != k {
                            assert(j != i);
                            assert(before[j] == self.entries@[j]);
                            assert(holds(before, x));
                            let j2 = choose|j2: int| 0 <= j2 < before.len() && #[trigger] before[j2].0@ == x;
                            assert(j2 == j);
                        } else {
                            assert(j == i);
                        }
                    }
                    assert(self@ =~= m_old.insert(k, client));
                }
                Some(prev)
            },
            None => {
                let mut entries: Vec<(String, C)> = Vec::new();
                std::mem::swap(&mut entries, &mut self.entries);
                entries.push((key, client));
                proof {
                    let n = before.len() as int;
                    assert(entries@ =~= before.push((key, client)));
                    assert forall|a: int, b: int|
                        0 <= a < entries@.len() && 0 <= b < entries@.len() && a != b
                        implies #[trigger] entries@[a].0@ != #[trigger] entries@[b].0@ by {
                        if a == n {
                            assert(entries@[b] == before[b]);
                        } else if b == n {
                            assert(entries@[a] == before[a]);
                        } else {
                            assert(entries@[a] == before[a] && entries@[b] == before[b]);
                        }
                    }
                }
                self.entries = entries;
                proof {
                    let n = before.len() as int;
                    let m_old = Map::new(|x: Seq<char>| holds(before, x), |x: Seq<char>| stored(before, x));
                    assert forall|x: Seq<char>| #[trigger] self@.contains_key(x) == m_old.insert(k, client).contains_key(x) by {
                        if holds(before, x) {
                            let j = choose|j: int| 0 <= j < before.len() && #[trigger] before[j].0@ == x;
                            assert(self.entries@[j].0@ == x);
                        }
                        if holds(self.entries@, x) && x != k {
                            let j = choose|j: int| 0 <= j < self.entries@.len() && #[trigger] self.entries@[j].0@ == x;
                            assert(j != n);
                            assert(before[j].0@ == x);
                        }
                        if x == k {
                            assert(self.entries@[n].0@ == k);
                        }
                    }
                    assert forall|x: Seq<char>| self@.contains_key(x) implies #[trigger] self@[x] == m_old.insert(k, client)[x] by {
                        let j = choose|j: int| 0 <= j < self.entries@.len() && #[trigger] self.entries@[j].0@ == x;
                        self.lemma_lookup(j);
                        if x != k {
                            assert(j != n);
                            assert(holds(before, x));
                            let j2 = choose|j2: int| 0 <= j2 < before.len() && #[trigger] before[j2].0@ == x;
                            assert(before[j2] == self.entries@[j2]);
                            assert(j2 == j);
                        } else {
                            assert(j == n);
                        }
                    }
                    assert(self@ =~= m_old.insert(k, client));
                }
                None
            },
        }
    }

    /// Removes the entry of `key`, handing back its value if there was one.
    pub fn remove(&mut self, key: &String) -> (old_client: Option<C>)
        ensures
            final(self)@ == old(self)@.remove(key@),
            old_client is Some <==> old(self)@.contains_key(key@),
            old_client matches Some(c) ==> c == old(self)@[key@],
    {
        proof {
            use_type_invariant(&*self);
        }
        let ghost before = self.entries@;
        let ghost k = key@;
        match self.position(key) {
            Some(i) => {
                proof {
                    self.lemma_lookup(i as int);
                }
                let mut entries: Vec<(String, C)> = Vec::new();
                std::mem::swap(&mut entries, &mut self.entries);
                let (_, prev) = entries.remove(i);
                proof {
                    assert(entries@ =~= before.remove(i as int));
                    assert forall|a: int, b: int|
                        0 <= a < entries@.len() && 0 <= b < entries@.len() && a != b
                        implies #[trigger] entries@[a].0@ != #[trigger] entries@[b].0@ by {
                        let a2 = if a < i { a } else { a + 1 };
                        let b2 = if b < i { b } else { b + 1 };
                        assert(entries@[a] == before[a2] && entries@[b] == before[b2]);
                    }
                }
                self.entries = entries;
                proof {
                    let m_old = Map::new(|x: Seq<char>| holds(before, x), |x: Seq<char>| stored(before, x));
                    assert forall|x: Seq<char>| #[trigger] self@.contains_key(x) == m_old.remove(k).contains_key(x) by {
                        if x != k && holds(before, x) {
                            let j = choose|j: int| 0 <= j < before.len() && #[trigger] before[j].0@ == x;
                            assert(j != i);
                            let j2 = if j < i { j } else { j - 1 };
                            assert(self.entries@[j2].0@ == x);
                        }
                        if holds(self.entries@, x) {
                            let j = choose|j: int| 0 <= j < self.entries@.len() && #[trigger] self.entries@[j].0@ == x;
                            let j2 = if j < i { j } else { j + 1 };
                            assert(before[j2].0@ == x);
                            assert(j2 != i);
                        }
                    }
                    assert forall|x: Seq<char>| self@.contains_key(x) implies #[trigger] self@[x] == m_old.remove(k)[x] by {
                        let j = choose|j: int| 0 <= j < self.entries@.len() && #[trigger] self.entries@[j].0@ == x;
                        self.lemma_lookup(j);
                        let j2 = if j < i { j } else { j + 1 };
                        assert(before[j2] == self.entries@[j]);
                        assert(holds(before, x));
                        let j3 = choose|j3: int| 0 <= j3 < before.len() && #[trigger] before[j3].0@ == x;
                        assert(j3 == j2);
                    }
                    assert(self@ =~= m_old.remove(k));
                }
                Some(prev)
            },
            None => {
                proof {
                    let m_old = Map::new(|x: Seq<char>| holds(before, x), |x: Seq<char>| stored(before, x));
                    assert(self@ =~= m_old.remove(k));
                }
                None
            },
        }
    }
}

/// The connected sessions and their clients, by session id. The server keeps
/// one table behind a lock and consults it for every connection and delivery.
pub struct SessionTable<C> {
    clients: TextMap<C>,
}

impl<C> View for SessionTable<C> {
    type V = Map<Seq<char>, C>;

    closed spec fn view(&self) -> Map<Seq<char>, C> {
        self.clients@
    }
}

impl<C> SessionTable<C> {
    /// No session is connected.
    pub fn new() -> (t: SessionTable<C>)
        ensures
            t@ == Map::<Seq<char>, C>::empty(),
    {
        SessionTable { clients: TextMap::new() }
    }

    /// Whether `id` is connected.
    pub fn contains(&self, id: &Session) -> (b: bool)
        ensures
            b == self@.contains_key(id.id()),
    {
        self.clients.contains(&id.0)
    }

    /// The client of `id`, if it is connected.
    pub fn get(&self, id: &Session) -> (r: Option<&C>)
        ensures
            r is Some <==> self@.contains_key(id.id()),
            r matches Some(c) ==> *c == self@[id.id()],
    {
        self.clients.get(&id.0)
    }

    /// Connects `client` under `id`. A client already connected under `id` is
    /// replaced and handed back, so that the caller can end its connection.
    pub fn connect(&mut self, id: Session, client: C) -> (old_client: Option<C>)
        ensures
            final(self)@ == old(self)@.insert(id.id(), client),
            old_client is Some <==> old(self)@.contains_key(id.id()),
            old_client matches Some(c) ==> c == old(self)@[id.id()],
    {
        self.clients.insert(id.0, client)
    }

    /// Disconnects `id`, handing back its client if it was connected.
    pub fn remove(&mut self, id: &Session) -> (old_client: Option<C>)
        ensures
            final(self)@ == old(self)@.remove(id.id()),
            old_client is Some <==> old(self)@.contains_key(id.id()),
            old_client matches Some(c) ==> c == old(self)@[id.id()],
    {
        self.clients.remove(&id.0)
    }

    /// Ends a connection of `id`. The entry is removed unless `replaced`, that
    /// is unless a newer connection of the same session took its place.
    pub fn close(&mut self, id: &Session, replaced: bool)
        ensures
            replaced ==> final(self)@ == old(self)@,
            !replaced ==> final(self)@ == old(self)@.remove(id.id()),
    {
        if !replaced {
            self.remove(id);
        }
    }

    /// The clients that a message for `receivers` is delivered to: those of the
    /// connected receivers, in the receivers' order.
    pub fn recipients(&self, receivers: &Vec<Session>) -> (r: Vec<&C>)
        ensures
            r@.len() == connected_clients(self@, receivers@).len(),
            forall|i: int| 0 <= i < r@.len() ==> *(#[trigger] r@[i]) == connected_clients(self@, receivers@)[i],
    {
        let mut r: Vec<&C> = Vec::new();
        let mut i: usize = 0;
        while i < receivers.len()
            invariant
                i <= receivers.len(),
                r@.len() == connected_clients(self@, receivers@.take(i as int)).len(),
                forall|j: int| 0 <= j < r@.len() ==> *(#[trigger] r@[j]) == connected_clients(self@, receivers@.take(i as int))[j],
            decreases receivers.len() - i,
        {
            assert(receivers@.take(i + 1).drop_last() =~= receivers@.take(i as int));
            match self.get(&receivers[i]) {
                Some(c) => {
                    r.push(c);
                },
                None => {},
            }
            i += 1;
        }
        assert(receivers@.take(receivers.len() as int) =~= receivers@);
        r
    }
}

} // verus!

verus! {

/// A message for a session that has just connected reaches its new client,
/// exactly once.
pub proof fn law_delivery_after_connect<C>(t: Map<Seq<char>, C>, s: Session, c: C)
    ensures
        connected_clients(t.insert(s.id(), c), seq![s]) == seq![c],
{
    assert(seq![s].drop_last() =~= Seq::<Session>::empty());
    assert(connected_clients(t.insert(s.id(), c), Seq::<Session>::empty()) == Seq::<C>::empty());
    assert(Seq::<C>::empty().push(c) =~= seq![c]);
}

/// A session that has been disconnected receives nothing.
pub proof fn law_no_delivery_after_remove<C>(t: Map<Seq<char>, C>, s: Session)
    ensures
        connected_clients(t.remove(s.id()), seq![s]) == Seq::<C>::empty(),
{
    assert(seq![s].drop_last() =~= Seq::<Session>::empty());
    assert(seq![s].last() == s);
    assert(!t.remove(s.id()).contains_key(s.id()));
    assert(connected_clients(t.remove(s.id()), Seq::<Session>::empty()) == Seq::<C>::empty());
}

/// Whether `c` is the client of a connected receiver among `rs`.
pub open spec fn client_of_receiver<C>(t: Map<Seq<char>, C>, rs: Seq<Session>, c: C) -> bool {
    exists|j: int| 0 <= j < rs.len() && t.contains_key(#[trigger] rs[j].id()) && c == t[rs[j].id()]
}

/// Every client a message reaches is the client of one of its connected
/// receivers, and no more clients are reached than there are receivers.
pub proof fn law_recipients_connected<C>(t: Map<Seq<char>, C>, rs: Seq<Session>)
    ensures
        connected_clients(t, rs).len() <= rs.len(),
        forall|i: int| 0 <= i < connected_clients(t, rs).len()
            ==> client_of_receiver(t, rs, #[trigger] connected_clients(t, rs)[i]),
    decreases rs.len(),
{
    if rs.len() > 0 {
        let init = rs.drop_last();
        law_recipients_connected(t, init);
        let p = connected_clients(t, init);
        assert forall|i: int| 0 <= i < connected_clients(t, rs).len()
            implies client_of_receiver(t, rs, #[trigger] connected_clients(t, rs)[i]) by {
            if i < p.len() {
                assert(connected_clients(t, rs)[i] == p[i]);
                assert(client_of_receiver(t, init, p[i]));
                let j = choose|j: int| 0 <= j < init.len() && t.contains_key(#[trigger] init[j].id()) && p[i] == t[init[j].id()];
                assert(rs[j] == init[j]);
            } else {
                let j = rs.len() - 1;
                assert(rs[j] == rs.last());
                assert(t.contains_key(rs[j].id()));
            }
        }
    }
}

} // verus!
