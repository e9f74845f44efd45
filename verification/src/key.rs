//! Adjacency keys: a node identifier followed by a label hash, both written
//! most significant byte first, so that all entries of one node and label
//! share one exact key.

use vstd::prelude::*;

verus! {

/// Width in bytes of an encoded node or edge identifier.
pub const ID_WIDTH: usize = 16;

/// Width in bytes of an encoded label hash.
pub const HASH_WIDTH: usize = 4;

/// The `n` low-order base-256 digits of `v`, most significant first.
pub open spec fn be_bytes(v: nat, n: nat) -> Seq<u8>
    decreases n,
{
    if n == 0 {
        Seq::empty()
    } else {
        be_bytes(v / 256, (n - 1) as nat).push((v % 256) as u8)
    }
}

/// 256 to the power `n`.
pub open spec fn pow256(n: nat) -> nat
    decreases n,
{
    if n == 0 {
        1
    } else {
        256 * pow256((n - 1) as nat)
    }
}

/// The bytes of the adjacency key of a node and a label hash.
pub open spec fn adjacency_key(node_id: u128, label_hash: u32) -> Seq<u8> {
    be_bytes(node_id as nat, 16) + be_bytes(label_hash as nat, 4)
}

/// An encoding of `n` digits has `n` bytes.
pub proof fn lemma_be_bytes_len(v: nat, n: nat)
    ensures
        be_bytes(v, n).len() == n,
    decreases n,
{
    if n > 0 {
        lemma_be_bytes_len(v / 256, (n - 1) as nat);
    }
}

/// Two numbers below 256^n with the same `n`-digit encoding are equal.
pub proof fn lemma_be_bytes_injective(a: nat, b: nat, n: nat)
    requires
        a < pow256(n),
        b < pow256(n),
        be_bytes(a, n) == be_bytes(b, n),
    ensures
        a == b,
    decreases n,
{
    if n > 0 {
        let m = (n - 1) as nat;
        let sa = be_bytes(a / 256, m);
        let sb = be_bytes(b / 256, m);
        assert(be_bytes(a, n).drop_last() =~= sa);
        assert(be_bytes(b, n).drop_last() =~= sb);
        assert(be_bytes(a, n).last() == (a % 256) as u8);
        assert(be_bytes(b, n).last() == (b % 256) as u8);
        lemma_be_bytes_injective(a / 256, b / 256, m);
    }
}

/// The two widths in use: identifiers lie below 256^16, label hashes below 256^4.
pub proof fn lemma_pow256_widths()
    ensures
        pow256(4) == 0x1_0000_0000,
        pow256(16) == 0x1_0000_0000_0000_0000_0000_0000_0000_0000,
{
    reveal_with_fuel(pow256, 5);
    assert(pow256(4) == 0x1_0000_0000);
    assert(pow256(8) == 0x1_0000_0000 * pow256(4));
    assert(pow256(12) == 0x1_0000_0000 * pow256(8));
    assert(pow256(16) == 0x1_0000_0000 * pow256(12));
}

/// Every adjacency key has the same width.
pub proof fn lemma_key_len(node_id: u128, label_hash: u32)
    ensures
        adjacency_key(node_id, label_hash).len() == 20,
{
    lemma_be_bytes_len(node_id as nat, 16);
    lemma_be_bytes_len(label_hash as nat, 4);
}

/// Distinct (node, label hash) pairs never share a key: a scan for one exact
/// key meets only the entries of that node and that label hash.
pub proof fn lemma_key_injective(a: u128, ha: u32, b: u128, hb: u32)
    requires
        adjacency_key(a, ha) == adjacency_key(b, hb),
    ensures
        a == b,
        ha == hb,
{
    lemma_be_bytes_len(a as nat, 16);
    lemma_be_bytes_len(b as nat, 16);
    lemma_be_bytes_len(ha as nat, 4);
    lemma_be_bytes_len(hb as nat, 4);
    let ka = adjacency_key(a, ha);
    let kb = adjacency_key(b, hb);
    assert(ka.subrange(0, 16) =~= be_bytes(a as nat, 16));
    assert(kb.subrange(0, 16) =~= be_bytes(b as nat, 16));
    assert(ka.subrange(16, 20) =~= be_bytes(ha as nat, 4));
    assert(kb.subrange(16, 20) =~= be_bytes(hb as nat, 4));
    lemma_pow256_widths();
    lemma_be_bytes_injective(a as nat, b as nat, 16);
    lemma_be_bytes_injective(ha as nat, hb as nat, 4);
}

/// Whether `a` and `b` agree before position `i` and `a` has the smaller byte
/// there.
pub open spec fn differs_at(a: Seq<u8>, b: Seq<u8>, i: int) -> bool {
    &&& 0 <= i < a.len()
    &&& i < b.len()
    &&& forall|j: int| 0 <= j < i ==> a[j] == b[j]
    &&& a[i] < b[i]
}

/// Whether `a` sorts before `b` in byte order, as an ordered index compares
/// keys of one width.
pub open spec fn sorts_before(a: Seq<u8>, b: Seq<u8>) -> bool {
    exists|i: int| differs_at(a, b, i)
}

/// The encoding keeps the order of numbers: the smaller number sorts first.
/// Hands back the position at which the two encodings part.
pub proof fn lemma_be_bytes_order(a: nat, b: nat, n: nat) -> (i: int)
    requires
        a < b,
        b < pow256(n),
    ensures
        0 <= i < n,
        differs_at(be_bytes(a, n), be_bytes(b, n), i),
    decreases n,
{
    lemma_be_bytes_len(a, n);
    lemma_be_bytes_len(b, n);
    let m = (n - 1) as nat;
    let sa = be_bytes(a / 256, m);
    let sb = be_bytes(b / 256, m);
    lemma_be_bytes_len(a / 256, m);
    lemma_be_bytes_len(b / 256, m);
    assert(be_bytes(a, n) == sa.push((a % 256) as u8));
    assert(be_bytes(b, n) == sb.push((b % 256) as u8));
    if a / 256 < b / 256 {
        lemma_be_bytes_order(a / 256, b / 256, m)
    } else {
        assert(a / 256 == b / 256);
        assert(a % 256 < b % 256);
        m as int
    }
}

/// Keys sort as their (node, label hash) pairs do: by node first, then by
/// label hash. So the entries of one node lie together in an ordered index,
/// and within them those of one label hash.
pub proof fn lemma_key_order(a: u128, ha: u32, b: u128, hb: u32)
    requires
        a < b || (a == b && ha < hb),
    ensures
        sorts_before(adjacency_key(a, ha), adjacency_key(b, hb)),
{
    lemma_pow256_widths();
    lemma_be_bytes_len(a as nat, 16);
    lemma_be_bytes_len(b as nat, 16);
    lemma_be_bytes_len(ha as nat, 4);
    lemma_be_bytes_len(hb as nat, 4);
    let ka = adjacency_key(a, ha);
    let kb = adjacency_key(b, hb);
    if a < b {
        let i = lemma_be_bytes_order(a as nat, b as nat, 16);
        assert(differs_at(ka, kb, i));
    } else {
        let i = lemma_be_bytes_order(ha as nat, hb as nat, 4);
        assert(differs_at(ka, kb, 16 + i));
    }
}

/// Appends the `n` low-order base-256 digits of `v`, most significant first.
fn push_be(out: &mut Vec<u8>, v: u128, n: usize)
    ensures
        final(out)@ == old(out)@ + be_bytes(v as nat, n as nat),
    decreases n,
{
    if n > 0 {
        push_be(out, v / 256, n - 1);
        out.push((v % 256) as u8);
        assert(final(out)@ =~= old(out)@ + be_bytes(v as nat, n as nat));
    } else {
        assert(final(out)@ =~= old(out)@ + be_bytes(v as nat, n as nat));
    }
}

fn encode_key(node_id: u128, label_hash: u32) -> (key: Vec<u8>)
    ensures
        key@ == adjacency_key(node_id, label_hash),
{
    let mut key: Vec<u8> = Vec::new();
    push_be(&mut key, node_id, ID_WIDTH);
    push_be(&mut key, label_hash as u128, HASH_WIDTH);
    assert(key@ =~= adjacency_key(node_id, label_hash));
    key
}

/// Key of the outgoing-adjacency index for a node and a label hash.
pub fn out_edge_key(node_id: u128, label_hash: u32) -> (key: Vec<u8>)
    ensures
        key@ == adjacency_key(node_id, label_hash),
        key@.len() == 20,
{
    proof {
        lemma_key_len(node_id, label_hash);
    }
    encode_key(node_id, label_hash)
}

/// Key of the incoming-adjacency index for a node and a label hash.
pub fn in_edge_key(node_id: u128, label_hash: u32) -> (key: Vec<u8>)
    ensures
        key@ == adjacency_key(node_id, label_hash),
        key@.len() == 20,
{
    proof {
        lemma_key_len(node_id, label_hash);
    }
    encode_key(node_id, label_hash)
}

} // verus!
