//! The numbers of the nodes in the consensus protocol.

use vstd::prelude::*;
use vstd::relations::{sorted_by, total_ordering};

use crate::text;
use crate::text::{str_eq, str_lt};

verus! {

/// `a` stands before `b` in the order of strings, or they are the same.
pub open spec fn addr_leq() -> spec_fn(Seq<char>, Seq<char>) -> bool {
    |a: Seq<char>, b: Seq<char>| !text::lex_lt(b, a)
}

/// The addresses of all nodes, in order.
pub open spec fn ordered(addrs: Seq<Seq<char>>) -> Seq<Seq<char>> {
    addrs.sort_by(addr_leq())
}

proof fn lemma_addr_order()
    ensures
        total_ordering(addr_leq()),
{
    let leq = addr_leq();
    assert forall|x: Seq<char>| #[trigger] leq(x, x) by {
        text::lemma_lex_total(x, x);
    }
    assert forall|x: Seq<char>, y: Seq<char>| #[trigger] leq(x, y) && #[trigger] leq(
        y,
        x,
    ) implies x == y by {
        text::lemma_lex_total(x, y);
    }
    assert forall|x: Seq<char>, y: Seq<char>, z: Seq<char>| #[trigger] leq(x, y) && #[trigger] leq(
        y,
        z,
    ) implies leq(x, z) by {
        text::lemma_lex_total(x, y);
        text::lemma_lex_total(y, z);
        text::lemma_lex_total(x, z);
        if text::lex_lt(x, y) && text::lex_lt(y, z) {
            text::lemma_lex_trans(x, y, z);
        }
    }
    assert forall|x: Seq<char>, y: Seq<char>| #[trigger] leq(x, y) || #[trigger] leq(y, x) by {
        text::lemma_lex_total(x, y);
    }
}

/// Puts an address in its place among others that are in order.
fn place(v: &mut Vec<String>, a: String)
    requires
        sorted_by(text::strs(old(v)@), addr_leq()),
    ensures
        sorted_by(text::strs(final(v)@), addr_leq()),
        text::strs(final(v)@).to_multiset() == text::strs(old(v)@).to_multiset().insert(a@),
{
    let ghost leq = addr_leq();
    let ghost key = a@;
    let ghost before = text::strs(v@);
    let mut i: usize = v.len();
    while i > 0 && str_lt(a.as_str(), v[i - 1].as_str())
        invariant
            i <= v@.len(),
            before == text::strs(v@),
            leq == addr_leq(),
            key == a@,
            forall|j: int| i <= j < before.len() ==> !leq(#[trigger] before[j], key),
        decreases i,
    {
        assert(before[i - 1] == v@[i - 1]@);
        i = i - 1;
    }
    let ghost at = i as int;
    v.insert(i, a);
    proof {
        let after = text::strs(v@);
        assert(after =~= before.insert(at, key));
        lemma_addr_order();
        vstd::seq_lib::to_multiset_insert(before, at, key);
        assert forall|x: int, y: int| 0 <= x < y < after.len() implies #[trigger] leq(
            after[x],
            after[y],
        ) by {
            if y == at {
                assert(leq(before[at - 1], key));
                if x < at - 1 {
                    assert(leq(before[x], before[at - 1]));
                }
            } else if x == at {
                assert(!leq(before[y - 1], key));
                assert(leq(key, before[y - 1]));
            } else if x < at && at < y {
                assert(leq(before[x], before[y - 1]));
            } else if y < at {
                assert(leq(before[x], before[y]));
            } else {
                assert(leq(before[x - 1], before[y - 1]));
            }
        }
    }
}

/// The addresses of all nodes, in order: this node's and those of the others.
pub fn all_addrs(self_addr: &str, partner_addrs: &Vec<String>) -> (r: Vec<String>)
    ensures
        text::strs(r@) == ordered(seq![self_addr@] + text::strs(partner_addrs@)),
{
    let mut v: Vec<String> = Vec::new();
    let ghost all = seq![self_addr@] + text::strs(partner_addrs@);
    assert(text::strs(v@) =~= Seq::empty());
    place(&mut v, self_addr.to_string());
    let mut i: usize = 0;
    proof {
        assert(all.take(1) =~= Seq::<Seq<char>>::empty().push(self_addr@));
        vstd::seq_lib::to_multiset_build(Seq::<Seq<char>>::empty(), self_addr@);
    }
    while i < partner_addrs.len()
        invariant
            i <= partner_addrs@.len(),
            all == seq![self_addr@] + text::strs(partner_addrs@),
            sorted_by(text::strs(v@), addr_leq()),
            text::strs(v@).to_multiset() == all.take(i + 1).to_multiset(),
        decreases partner_addrs@.len() - i,
    {
        proof {
            assert(all.take(i + 2) =~= all.take(i + 1).push(partner_addrs@[i as int]@));
            vstd::seq_lib::to_multiset_build(all.take(i + 1), partner_addrs@[i as int]@);
        }
        place(&mut v, partner_addrs[i].clone());
        i = i + 1;
    }
    proof {
        assert(all.take(i + 1) =~= all);
        lemma_addr_order();
        all.lemma_sort_by_ensures(addr_leq());
        vstd::seq_lib::lemma_sorted_unique(text::strs(v@), ordered(all), addr_leq());
    }
    v
}

/// The number of the node with an address: its place among the addresses in order, from one.
pub open spec fn is_node_id(addrs: Seq<Seq<char>>, addr: Seq<char>, id: nat) -> bool {
    &&& 1 <= id <= addrs.len()
    &&& addrs[id - 1] == addr
    &&& forall|j: int| 0 <= j < id - 1 ==> #[trigger] addrs[j] != addr
}

/// The number of the node with an address, if no number is given for it; the first number if the
/// address is not among them.
pub fn node_id(addrs: &Vec<String>, addr: &str, given: Option<u64>) -> (r: u64)
    ensures
        match given {
            Some(n) => r == n,
            None => if text::strs(addrs@).contains(addr@) {
                is_node_id(text::strs(addrs@), addr@, r as nat)
            } else {
                r == 1
            },
        },
{
    if let Some(n) = given {
        return n;
    }
    let ghost all = text::strs(addrs@);
    let mut i: usize = 0;
    while i < addrs.len()
        invariant
            i <= addrs@.len(),
            given is None,
            all == text::strs(addrs@),
            forall|j: int| 0 <= j < i ==> #[trigger] all[j] != addr@,
        decreases addrs@.len() - i,
    {
        assert(all[i as int] == addrs@[i as int]@);
        if str_eq(addrs[i].as_str(), addr) {
            assert(all.contains(addr@));
            return i as u64 + 1;
        }
        i = i + 1;
    }
    assert(!all.contains(addr@));
    1
}

/// The nodes with their numbers.
pub open spec fn numbered(addrs: Seq<Seq<char>>) -> Seq<(nat, Seq<char>)> {
    Seq::new(addrs.len(), |i: int| ((i + 1) as nat, addrs[i]))
}

/// The nodes with their numbers, as the store is created with them.
pub fn members(addrs: &Vec<String>) -> (r: Vec<(u64, String)>)
    ensures
        r@.len() == addrs@.len(),
        forall|i: int|
            0 <= i < r@.len() ==> ((#[trigger] r@[i]).0 as nat, r@[i].1@) == numbered(
                text::strs(addrs@),
            )[i],
{
    let mut out: Vec<(u64, String)> = Vec::new();
    let mut i: usize = 0;
    while i < addrs.len()
        invariant
            i <= addrs@.len(),
            out@.len() == i,
            forall|j: int|
                0 <= j < i ==> (#[trigger] out@[j]).0 == j + 1 && out@[j].1@ == addrs@[j]@,
        decreases addrs@.len() - i,
    {
        out.push((i as u64 + 1, addrs[i].clone()));
        i = i + 1;
    }
    assert forall|j: int| 0 <= j < out@.len() implies ((#[trigger] out@[j]).0 as nat, out@[j].1@)
        == numbered(text::strs(addrs@))[j] by {
        assert(text::strs(addrs@)[j] == addrs@[j]@);
    }
    out
}

/// Whether the node with this number creates the store; the others are told of it.
pub fn creates_store(node_id: u64) -> (r: bool)
    ensures
        r == (node_id == 1),
{
    node_id == 1
}

// ---------------------------------------------------------------------------------------------
// Laws
// ---------------------------------------------------------------------------------------------
/// Every node counts the nodes alike, whichever of the addresses is its own: the order does not
/// depend on how the addresses are listed.
pub proof fn law_every_node_counts_alike(a: Seq<Seq<char>>, b: Seq<Seq<char>>)
    requires
        a.to_multiset() == b.to_multiset(),
    ensures
        ordered(a) == ordered(b),
{
    lemma_addr_order();
    a.lemma_sort_by_ensures(addr_leq());
    b.lemma_sort_by_ensures(addr_leq());
    vstd::seq_lib::lemma_sorted_unique(ordered(a), ordered(b), addr_leq());
}

/// Nodes with different addresses have different numbers.
pub proof fn law_node_ids_differ(
    addrs: Seq<Seq<char>>,
    a: Seq<char>,
    b: Seq<char>,
    i: nat,
    j: nat,
)
    requires
        is_node_id(addrs, a, i),
        is_node_id(addrs, b, j),
        a != b,
    ensures
        i != j,
{
}

/// The number of a node is the one that the store is created with for its address.
pub proof fn law_node_id_is_its_number(addrs: Seq<Seq<char>>, addr: Seq<char>, id: nat)
    requires
        is_node_id(addrs, addr, id),
    ensures
        numbered(addrs)[id - 1] == (id, addr),
{
}

/// The nodes are counted in the order of their addresses, and all of them are.
pub proof fn law_nodes_are_in_order(addrs: Seq<Seq<char>>, i: int, j: int)
    requires
        0 <= i < j < ordered(addrs).len(),
    ensures
        !text::lex_lt(ordered(addrs)[j], ordered(addrs)[i]),
        ordered(addrs).to_multiset() == addrs.to_multiset(),
{
    lemma_addr_order();
    addrs.lemma_sort_by_ensures(addr_leq());
    let leq = addr_leq();
    assert(leq(ordered(addrs)[i], ordered(addrs)[j]));
}

/// Every node has a number, counted from one, and only one.
pub proof fn law_every_node_has_a_number(addrs: Seq<Seq<char>>, addr: Seq<char>, a: nat, b: nat)
    ensures
        addrs.contains(addr) ==> exists|id: nat| #[trigger] is_node_id(addrs, addr, id),
        is_node_id(addrs, addr, a) && is_node_id(addrs, addr, b) ==> a == b,
        is_node_id(addrs, addr, a) ==> 1 <= a <= addrs.len() && addrs[a - 1] == addr,
        numbered(addrs).len() == addrs.len(),
{
    if addrs.contains(addr) {
        let i = choose|i: int| 0 <= i < addrs.len() && addrs[i] == addr;
        lemma_first_place(addrs, addr, i);
    }
    if is_node_id(addrs, addr, a) && is_node_id(addrs, addr, b) {
        if a < b {
            assert(addrs[a - 1] != addr);
        }
        if b < a {
            assert(addrs[b - 1] != addr);
        }
    }
}

proof fn lemma_first_place(addrs: Seq<Seq<char>>, addr: Seq<char>, i: int)
    requires
        0 <= i < addrs.len(),
        addrs[i] == addr,
    ensures
        exists|id: nat| #[trigger] is_node_id(addrs, addr, id),
    decreases i,
{
    if exists|j: int| 0 <= j < i && #[trigger] addrs[j] == addr {
        let j = choose|j: int| 0 <= j < i && #[trigger] addrs[j] == addr;
        lemma_first_place(addrs, addr, j);
    } else {
        assert(is_node_id(addrs, addr, (i + 1) as nat));
    }
}

} // verus!
