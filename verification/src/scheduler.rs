//! Who dials whom.
//!
//! Scheduler replicas stand on a ring, in the order of their addresses.
//! Each dials the replicas that follow it, half of the others rounded down,
//! so that every pair is joined once and not twice. Message nodes settle
//! the same question by their ids: of two nodes, the one with the lower id
//! dials.

use vstd::prelude::*;
use vstd::seq_lib::{to_multiset_build, to_multiset_insert};
use crate::config::PeerAddr;
use crate::msg::{spec_noop, Msg, MsgView, Type};

verus! {

/// The order of addresses: IPv4 before IPv6, then by address, then by port.
pub open spec fn addr_lt(a: PeerAddr, b: PeerAddr) -> bool {
    if a.v6 != b.v6 {
        !a.v6
    } else if a.ip != b.ip {
        a.ip < b.ip
    } else {
        a.port < b.port
    }
}

/// Whether `s` is in ascending order.
pub open spec fn sorted(s: Seq<PeerAddr>) -> bool {
    forall|i: int, j: int| 0 <= i < j < s.len() ==> !addr_lt(#[trigger] s[j], #[trigger] s[i])
}

/// Where `x` goes into `s`: behind the last address that is not greater.
pub open spec fn spec_position(s: Seq<PeerAddr>, x: PeerAddr) -> int
    decreases s.len(),
{
    if s.len() == 0 {
        0
    } else if addr_lt(x, s.last()) {
        spec_position(s.drop_last(), x)
    } else {
        s.len() as int
    }
}

/// The addresses of `s` in ascending order; equal ones keep their order.
pub open spec fn spec_sort(s: Seq<PeerAddr>) -> Seq<PeerAddr>
    decreases s.len(),
{
    if s.len() == 0 {
        s
    } else {
        let before = spec_sort(s.drop_last());
        before.insert(spec_position(before, s.last()), s.last())
    }
}

/// The position behind the first `me` in `s` from `from` on, or the length
/// of `s` where `me` is not there.
pub open spec fn spec_start_from(s: Seq<PeerAddr>, me: PeerAddr, from: int) -> int
    decreases s.len() - from,
{
    if from < 0 || from >= s.len() {
        s.len() as int
    } else if s[from] == me {
        from + 1
    } else {
        spec_start_from(s, me, from + 1)
    }
}

/// How many replicas one of `n` dials: half of the others, rounded down.
pub open spec fn spec_dial_count(n: int) -> int {
    if n <= 0 {
        0
    } else {
        (n - 1) / 2
    }
}

/// The replicas to dial among the first `k` on the ring from position
/// `start` on: each once, and none that is connected already.
pub open spec fn spec_ring(
    s: Seq<PeerAddr>,
    start: int,
    k: int,
    connected: Seq<PeerAddr>,
) -> Seq<PeerAddr>
    decreases k,
{
    if k <= 0 || s.len() == 0 {
        Seq::empty()
    } else {
        let before = spec_ring(s, start, k - 1, connected);
        let a = s[(start + k - 1) % (s.len() as int)];
        if connected.contains(a) || before.contains(a) {
            before
        } else {
            before.push(a)
        }
    }
}

/// The replicas that the replica at `me` dials, given all addresses of the
/// cluster in any order and the replicas it is connected to.
pub open spec fn spec_plan(
    addrs: Seq<PeerAddr>,
    me: PeerAddr,
    connected: Seq<PeerAddr>,
) -> Seq<PeerAddr> {
    let s = spec_sort(addrs);
    spec_ring(s, spec_start_from(s, me, 0), spec_dial_count(s.len() as int), connected)
}

/// Whether the node `my_id` dials the node `other`: the lower id dials.
pub open spec fn spec_should_dial(my_id: u32, other: u32) -> bool {
    my_id < other
}

/// Of two different nodes exactly one dials the other, and no node dials
/// itself.
pub proof fn lemma_one_dialer(a: u32, b: u32)
    ensures
        a != b ==> spec_should_dial(a, b) != spec_should_dial(b, a),
        !spec_should_dial(a, a),
{
}

/// Where an address goes lies within the sequence, everything behind is
/// greater, and what stands in front is not.
pub proof fn lemma_position(s: Seq<PeerAddr>, x: PeerAddr)
    ensures
        0 <= spec_position(s, x) <= s.len(),
        forall|k: int| spec_position(s, x) <= k < s.len() ==> addr_lt(x, #[trigger] s[k]),
        spec_position(s, x) > 0 ==> !addr_lt(x, s[spec_position(s, x) - 1]),
    decreases s.len(),
{
    if s.len() > 0 && addr_lt(x, s.last()) {
        lemma_position(s.drop_last(), x);
        let p = spec_position(s, x);
        assert forall|k: int| p <= k < s.len() implies addr_lt(x, #[trigger] s[k]) by {
            if k < s.len() - 1 {
                assert(s.drop_last()[k] == s[k]);
            }
        }
        if p > 0 {
            assert(s.drop_last()[p - 1] == s[p - 1]);
        }
    }
}

/// Sorting puts the addresses in ascending order and keeps every one of
/// them, as often as it was there.
pub proof fn lemma_sort(s: Seq<PeerAddr>)
    ensures
        sorted(spec_sort(s)),
        spec_sort(s).len() == s.len(),
        spec_sort(s).to_multiset() == s.to_multiset(),
    decreases s.len(),
{
    if s.len() == 0 {
    } else {
        let rest = s.drop_last();
        let x = s.last();
        lemma_sort(rest);
        let before = spec_sort(rest);
        let p = spec_position(before, x);
        lemma_position(before, x);
        let after = before.insert(p, x);
        assert forall|i: int, j: int| 0 <= i < j < after.len() implies !addr_lt(
            #[trigger] after[j],
            #[trigger] after[i],
        ) by {
            if j < p {
                assert(after[i] == before[i] && after[j] == before[j]);
            } else if j == p {
                assert(after[i] == before[i]);
                if i < p - 1 {
                    assert(!addr_lt(before[p - 1], before[i]));
                }
            } else if i < p {
                assert(after[i] == before[i] && after[j] == before[j - 1]);
            } else if i == p {
                assert(after[j] == before[j - 1]);
            } else {
                assert(after[i] == before[i - 1] && after[j] == before[j - 1]);
            }
        }
        to_multiset_insert(before, p, x);
        assert(s =~= rest.push(x));
        to_multiset_build(rest, x);
    }
}

/// Whether `a` comes before `b` in the order of addresses.
pub fn addr_less(a: &PeerAddr, b: &PeerAddr) -> (lt: bool)
    ensures
        lt == addr_lt(*a, *b),
{
    if a.v6 != b.v6 {
        !a.v6
    } else if a.ip != b.ip {
        a.ip < b.ip
    } else {
        a.port < b.port
    }
}

/// Whether the node `my_id` dials the node `other`.
pub fn should_dial(my_id: u32, other: u32) -> (dial: bool)
    ensures
        dial == spec_should_dial(my_id, other),
{
    my_id < other
}

/// Whether `a` is among `v`.
pub fn contains_addr(v: &Vec<PeerAddr>, a: &PeerAddr) -> (found: bool)
    ensures
        found == v@.contains(*a),
{
    let mut i: usize = 0;
    while i < v.len()
        invariant
            i <= v.len(),
            forall|j: int| 0 <= j < i ==> v@[j] != *a,
        decreases v.len() - i,
    {
        if v[i] == *a {
            return true;
        }
        i = i + 1;
    }
    false
}

/// The addresses of `addrs` in ascending order.
pub fn sort_addresses(addrs: &Vec<PeerAddr>) -> (out: Vec<PeerAddr>)
    ensures
        out@ == spec_sort(addrs@),
        sorted(out@),
        out@.to_multiset() == addrs@.to_multiset(),
{
    let mut out: Vec<PeerAddr> = Vec::new();
    let mut n: usize = 0;
    assert(addrs@.take(0) =~= Seq::<PeerAddr>::empty());
    while n < addrs.len()
        invariant
            n <= addrs.len(),
            out@ == spec_sort(addrs@.take(n as int)),
        decreases addrs.len() - n,
    {
        let x = addrs[n];
        proof {
            let next = addrs@.take(n + 1);
            assert(next.drop_last() =~= addrs@.take(n as int));
            assert(next.last() == x);
            lemma_sort(addrs@.take(n as int));
        }
        let ghost before = out@;
        let mut i: usize = out.len();
        assert(before.take(i as int) =~= before);
        while i > 0 && addr_less(&x, &out[i - 1])
            invariant
                i <= out.len(),
                out@ == before,
                spec_position(before, x) == spec_position(before.take(i as int), x),
            decreases i,
        {
            proof {
                let cur = before.take(i as int);
                assert(cur.last() == before[i - 1]);
                assert(cur.drop_last() =~= before.take(i - 1));
            }
            i = i - 1;
        }
        proof {
            if i > 0 {
                let cur = before.take(i as int);
                assert(cur.last() == before[i - 1]);
            }
        }
        out.insert(i, x);
        n = n + 1;
    }
    proof {
        assert(addrs@.take(addrs@.len() as int) =~= addrs@);
        lemma_sort(addrs@);
    }
    out
}

/// The replicas that the replica at `me` dials: the replicas that follow it
/// on the ring, half of the others rounded down, each once, and none that
/// it is connected to.
pub fn plan_dials(addrs: &Vec<PeerAddr>, me: &PeerAddr, connected: &Vec<PeerAddr>) -> (plan: Vec<
    PeerAddr,
>)
    ensures
        plan@ == spec_plan(addrs@, *me, connected@),
{
    let s = sort_addresses(addrs);
    let n: usize = s.len();
    let mut plan: Vec<PeerAddr> = Vec::new();
    if n == 0 {
        return plan;
    }
    let mut start: usize = 0;
    let mut found: bool = false;
    while start < n && !found
        invariant
            n == s.len(),
            start <= n,
            !found ==> spec_start_from(s@, *me, 0) == spec_start_from(s@, *me, start as int),
            found ==> spec_start_from(s@, *me, 0) == start,
        decreases n - start + if found { 0int } else { 1int },
    {
        if s[start] == *me {
            found = true;
        }
        start = start + 1;
    }
    let count: usize = (n - 1) / 2;
    let mut k: usize = 0;
    while k < count
        invariant
            n == s.len(),
            n > 0,
            start <= n,
            k <= count,
            count == spec_dial_count(n as int),
            plan@ == spec_ring(s@, start as int, k as int, connected@),
        decreases count - k,
    {
        let at: usize = ((start as u128 + k as u128) % (n as u128)) as usize;
        let a = s[at];
        if !contains_addr(connected, &a) && !contains_addr(&plan, &a) {
            plan.push(a);
        }
        k = k + 1;
    }
    plan
}

/// What a message node tells the scheduler when it starts: a registration
/// under its id, its descriptor as payload.
pub open spec fn spec_register(my_id: u32, descriptor: Seq<u8>) -> MsgView {
    MsgView {
        typ: Type::MessageNodeRegister.spec_value(),
        sender: my_id as u64,
        node_id: my_id,
        payload: descriptor,
        ..spec_noop()
    }
}

/// What a message node tells the scheduler when it leaves.
pub open spec fn spec_unregister(my_id: u32) -> MsgView {
    MsgView {
        typ: Type::MessageNodeUnregister.spec_value(),
        sender: my_id as u64,
        node_id: my_id,
        ..spec_noop()
    }
}

/// What a message node tells the scheduler when it starts.
pub fn register_msg(my_id: u32, descriptor: &[u8]) -> (m: Msg)
    ensures
        m@ == spec_register(my_id, descriptor@),
{
    let mut m = Msg::from_payload_extension(descriptor, &[]);
    m.typ = Type::MessageNodeRegister.value();
    m.sender = my_id as u64;
    m.node_id = my_id;
    assert(m@.extension =~= Seq::<u8>::empty());
    m
}

/// What a message node tells the scheduler when it leaves.
pub fn unregister_msg(my_id: u32) -> (m: Msg)
    ensures
        m@ == spec_unregister(my_id),
{
    let mut m = Msg::noop();
    m.typ = Type::MessageNodeUnregister.value();
    m.sender = my_id as u64;
    m.node_id = my_id;
    m
}

/// Whether a replica that was dialled has admitted the dialler: it answers
/// with a message of type auth; any other answer, and none, is a refusal.
pub fn replica_admits(reply: Option<&Msg>) -> (ok: bool)
    ensures
        ok == (reply is Some && reply->Some_0.typ == Type::Auth.spec_value()),
{
    match reply {
        Some(m) => m.typ == Type::Auth.value(),
        None => false,
    }
}

} // verus!
