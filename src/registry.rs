//! The console-owned registry of live sessions: an insertion-ordered list of
//! connections, each known by its peer's address. Only its owner mutates it;
//! the socket work (shutting, writing, probing) is done by the owner, which
//! hands the outcomes back here.
use vstd::prelude::*;

verus! {

/// A registered connection: a handle and the address of its peer.
pub struct Connection<H> {
    pub handle: H,
    pub ip: String,
    pub port: u16,
}

impl<H> Connection<H> {
    /// Whether the peer's address is `ip`:`port`.
    pub open spec fn is_peer(&self, ip: Seq<char>, port: u16) -> bool {
        self.ip@ == ip && self.port == port
    }
}

/// The entries of `s` whose flag in `keep` is set, in their order.
pub open spec fn kept<T>(s: Seq<T>, keep: Seq<bool>) -> Seq<T>
    decreases s.len(),
{
    if s.len() == 0 {
        Seq::empty()
    } else if keep[s.len() - 1] {
        kept(s.drop_last(), keep).push(s.last())
    } else {
        kept(s.drop_last(), keep)
    }
}

/// How many flags are set.
pub open spec fn count_set(flags: Seq<bool>) -> nat
    decreases flags.len(),
{
    if flags.len() == 0 {
        0
    } else {
        count_set(flags.drop_last()) + if flags.last() {
            1nat
        } else {
            0nat
        }
    }
}

/// How many flags are clear.
pub open spec fn count_clear(flags: Seq<bool>) -> nat
    decreases flags.len(),
{
    if flags.len() == 0 {
        0
    } else {
        count_clear(flags.drop_last()) + if flags.last() {
            0nat
        } else {
            1nat
        }
    }
}

/// The first entry whose peer is `ip`:`port`.
pub open spec fn first_peer<H>(s: Seq<Connection<H>>, ip: Seq<char>, port: u16) -> Option<int> {
    if exists|i: int| 0 <= i < s.len() && (#[trigger] s[i]).is_peer(ip, port) {
        Some(
            choose|i: int|
                0 <= i < s.len() && (#[trigger] s[i]).is_peer(ip, port) && forall|j: int|
                    0 <= j < i ==> !s[j].is_peer(ip, port),
        )
    } else {
        None
    }
}

/// The indices whose flag is clear, ascending.
pub open spec fn clear_indices(flags: Seq<bool>) -> Seq<usize>
    decreases flags.len(),
{
    if flags.len() == 0 {
        Seq::empty()
    } else if flags.last() {
        clear_indices(flags.drop_last())
    } else {
        clear_indices(flags.drop_last()).push((flags.len() - 1) as usize)
    }
}

pub struct Registry<H> {
    entries: Vec<Connection<H>>,
}

proof fn lemma_kept_take<T>(s: Seq<T>, keep: Seq<bool>, i: int)
    requires
        0 <= i < s.len(),
    ensures
        kept(s.take(i + 1), keep) == if keep[i] {
            kept(s.take(i), keep).push(s[i])
        } else {
            kept(s.take(i), keep)
        },
{
    assert(s.take(i + 1).drop_last() =~= s.take(i));
}

proof fn lemma_count_take(flags: Seq<bool>, i: int)
    requires
        0 <= i < flags.len(),
    ensures
        count_set(flags.take(i + 1)) == count_set(flags.take(i)) + if flags[i] {
            1nat
        } else {
            0nat
        },
        clear_indices(flags.take(i + 1)) == if flags[i] {
            clear_indices(flags.take(i))
        } else {
            clear_indices(flags.take(i)).push(i as usize)
        },
{
    assert(flags.take(i + 1).drop_last() =~= flags.take(i));
}

/// A kept subsequence is as long as the number of set flags.
pub proof fn lemma_kept_len<T>(s: Seq<T>, keep: Seq<bool>)
    requires
        s.len() == keep.len(),
    ensures
        kept(s, keep).len() == count_set(keep),
        count_set(keep) + count_clear(keep) == keep.len(),
    decreases s.len(),
{
    if s.len() > 0 {
        lemma_kept_len(s.drop_last(), keep.drop_last());
        lemma_kept_prefix_flags(s.drop_last(), keep);
    }
}

/// Only the first `s.len()` flags count.
proof fn lemma_kept_prefix_flags<T>(s: Seq<T>, keep: Seq<bool>)
    requires
        s.len() <= keep.len(),
    ensures
        kept(s, keep) == kept(s, keep.take(s.len() as int)),
    decreases s.len(),
{
    if s.len() > 0 {
        lemma_kept_prefix_flags(s.drop_last(), keep);
        lemma_kept_prefix_flags(s.drop_last(), keep.take(s.len() as int));
        assert(keep.take(s.len() as int).take(s.len() - 1) =~= keep.take(s.len() - 1));
    }
}

/// Whatever is kept was at a position whose flag is set.
pub proof fn lemma_kept_member<T>(s: Seq<T>, keep: Seq<bool>, x: T)
    requires
        kept(s, keep).contains(x),
    ensures
        exists|j: int| 0 <= j < s.len() && keep[j] && s[j] == x,
    decreases s.len(),
{
    if s.len() > 0 {
        let k = kept(s.drop_last(), keep);
        if keep[s.len() - 1] && x == s.last() {
            assert(s[s.len() - 1] == x);
        } else {
            if keep[s.len() - 1] {
                let i = choose|i: int| 0 <= i < kept(s, keep).len() && kept(s, keep)[i] == x;
                assert(i < k.len());
                assert(k[i] == x);
            }
            lemma_kept_member(s.drop_last(), keep, x);
            let j = choose|j: int| 0 <= j < s.len() - 1 && keep[j] && s.drop_last()[j] == x;
            assert(s[j] == x);
        }
    }
}

/// Broadcasting to `n` connections of which `k` fail to take the write leaves
/// `n - k` of them, and none of the failed ones, when no connection is
/// registered twice.
pub proof fn lemma_broadcast_outcome<H>(s: Seq<Connection<H>>, delivered: Seq<bool>)
    requires
        s.len() == delivered.len(),
        forall|i: int, j: int| 0 <= i < j < s.len() ==> s[i] != s[j],
    ensures
        kept(s, delivered).len() == s.len() - count_clear(delivered),
        forall|i: int|
            0 <= i < s.len() && !delivered[i] ==> !kept(s, delivered).contains(#[trigger] s[i]),
{
    lemma_kept_len(s, delivered);
    assert forall|i: int| 0 <= i < s.len() && !delivered[i] implies !kept(
        s,
        delivered,
    ).contains(#[trigger] s[i]) by {
        if kept(s, delivered).contains(s[i]) {
            lemma_kept_member(s, delivered, s[i]);
            let j = choose|j: int| 0 <= j < s.len() && delivered[j] && s[j] == s[i];
            assert(j != i);
        }
    }
}

impl<H> Registry<H> {
    pub closed spec fn view(&self) -> Seq<Connection<H>> {
        self.entries@
    }

    /// An empty registry.
    pub fn new() -> (r: Registry<H>)
        ensures
            r@ == Seq::<Connection<H>>::empty(),
    {
        Registry { entries: Vec::new() }
    }

    /// The number of registered connections.
    pub fn len(&self) -> (r: usize)
        ensures
            r == self@.len(),
    {
        self.entries.len()
    }

    /// The registered connections, in order.
    pub fn connections(&self) -> (r: &Vec<Connection<H>>)
        ensures
            r@ == self@,
    {
        &self.entries
    }

    /// Registers a connection after the others.
    pub fn register(&mut self, c: Connection<H>)
        ensures
            final(self)@ == old(self)@.push(c),
    {
        self.entries.push(c);
    }

    /// Registers the connections handed off since the last drain, in the order
    /// they arrived.
    pub fn drain_handoffs(&mut self, arrivals: Vec<Connection<H>>)
        ensures
            final(self)@ == old(self)@ + arrivals@,
    {
        let mut arrivals = arrivals;
        self.entries.append(&mut arrivals);
    }

    /// Where the first connection to `ip`:`port` stands.
    pub fn position_of(&self, ip: &str, port: u16) -> (r: Option<usize>)
        ensures
            r matches Some(i) ==> first_peer(self@, ip@, port) == Some(i as int),
            r matches Some(i) ==> i < self@.len() && self@[i as int].is_peer(ip@, port),
            r is None ==> first_peer(self@, ip@, port) is None,
    {
        let mut i: usize = 0;
        while i < self.entries.len()
            invariant
                i <= self.entries@.len(),
                forall|j: int| 0 <= j < i ==> !self.entries@[j].is_peer(ip@, port),
            decreases self.entries@.len() - i,
        {
            let c = &self.entries[i];
            if c.port == port && crate::text::same_text(c.ip.as_str(), ip) {
                assert(self.entries@[i as int].is_peer(ip@, port));
                let ghost w = choose|k: int|
                    0 <= k < self@.len() && (#[trigger] self@[k]).is_peer(ip@, port) && forall|
                        j: int,
                    |
                        0 <= j < k ==> !self@[j].is_peer(ip@, port);
                assert(w == i) by {
                    if w < i {
                    } else if w > i {
                    }
                }
                return Some(i);
            }
            i = i + 1;
        }
        None
    }

    /// Takes out the first connection to `ip`:`port`; without one the registry
    /// stays as it is.
    pub fn disconnect(&mut self, ip: &str, port: u16) -> (r: Option<Connection<H>>)
        ensures
            r is None ==> first_peer(old(self)@, ip@, port) is None && final(self)@ == old(self)@,
            r matches Some(c) ==> {
                let i = first_peer(old(self)@, ip@, port)->0;
                &&& first_peer(old(self)@, ip@, port) is Some
                &&& c == old(self)@[i]
                &&& final(self)@ == old(self)@.remove(i)
            },
    {
        match self.position_of(ip, port) {
            Some(i) => Some(self.entries.remove(i)),
            None => None,
        }
    }

    /// Takes out every connection, in order, leaving the registry empty.
    pub fn take_all(&mut self) -> (r: Vec<Connection<H>>)
        ensures
            r@ == old(self)@,
            final(self)@ == Seq::<Connection<H>>::empty(),
    {
        let mut all: Vec<Connection<H>> = Vec::new();
        std::mem::swap(&mut all, &mut self.entries);
        all
    }

    /// Keeps the connections whose flag is set, in their order.
    fn retain_flagged(&mut self, keep: &Vec<bool>)
        requires
            keep@.len() == old(self)@.len(),
        ensures
            final(self)@ == kept(old(self)@, keep@),
    {
        let mut old_entries: Vec<Connection<H>> = Vec::new();
        std::mem::swap(&mut old_entries, &mut self.entries);
        let ghost s = old_entries@;
        let n = keep.len();
        let mut i: usize = 0;
        for c in it: old_entries.into_iter()
            invariant
                it.seq() == s,
                i == it.index(),
                i <= s.len(),
                keep@.len() == s.len(),
                n == keep@.len(),
                self.entries@ == kept(s.take(i as int), keep@),
        {
            proof { lemma_kept_take(s, keep@, i as int); }
            if keep[i] {
                self.entries.push(c);
            }
            i = i + 1;
        }
        assert(s.take(s.len() as int) =~= s);
    }

    /// After a broadcast: drops the connections that did not take the write
    /// (`delivered[i]` is false) and tells how many did.
    pub fn evict_failed(&mut self, delivered: &Vec<bool>) -> (r: usize)
        requires
            delivered@.len() == old(self)@.len(),
        ensures
            final(self)@ == kept(old(self)@, delivered@),
            r == count_set(delivered@),
            r == old(self)@.len() - count_clear(delivered@),
    {
        proof { lemma_kept_len(self@, delivered@); }
        self.retain_flagged(delivered);
        self.entries.len()
    }

    /// After a listing: drops the connections whose liveness probe failed
    /// (`alive[i]` is false) and returns their former indices, ascending.
    pub fn sweep(&mut self, alive: &Vec<bool>) -> (r: Vec<usize>)
        requires
            alive@.len() == old(self)@.len(),
        ensures
            final(self)@ == kept(old(self)@, alive@),
            r@ == clear_indices(alive@),
    {
        let mut dead: Vec<usize> = Vec::new();
        let mut i: usize = 0;
        while i < alive.len()
            invariant
                i <= alive@.len(),
                dead@ == clear_indices(alive@.take(i as int)),
            decreases alive@.len() - i,
        {
            proof { lemma_count_take(alive@, i as int); }
            if !alive[i] {
                dead.push(i);
            }
            i = i + 1;
        }
        assert(alive@.take(alive@.len() as int) =~= alive@);
        self.retain_flagged(alive);
        dead
    }
}

} // verus!
