use vstd::prelude::*;
use crate::types::{has_branch_id, Branch, Uuid};
use vstd::set_lib::{lemma_int_range, lemma_len_subset, lemma_map_size, set_int_range};

verus! {

/// A value that fits the layout of a random (version 4, RFC 4122 variant) UUID:
/// the version nibble is 4 and the two variant bits are `10`.
pub open spec fn is_random_v4(id: Uuid) -> bool {
    &&& (id.0 >> 76u32) & 0xfu128 == 4u128
    &&& (id.0 >> 62u32) & 0x3u128 == 2u128
}

/// Draws a fresh identifier from `uuid::Uuid::new_v4`, kept as its big-endian
/// 128-bit value (`as_u128`).
///
/// Trusted: the value comes from the operating system's random source, so no
/// contract can say which one it is. The contract claims only what the crate
/// documents of every outcome: version 4 (random) and the RFC 4122 variant,
/// which `new_v4` sets by masking those bits in. Nothing is claimed about it
/// differing from identifiers already in use.
#[verifier::external_body]
pub(crate) fn fresh_uuid() -> (id: Uuid)
    ensures
        is_random_v4(id),
{
    Uuid(uuid::Uuid::new_v4().as_u128())
}

/// The `k`-th spare identifier: a version-4 layout whose free bits hold `k`
/// (its low 62 bits in bits 0..61, its top 2 bits in bits 64..65).
pub open spec fn spare_id(k: u64) -> u128 {
    0x4000_8000_0000_0000_0000u128 | ((k as u128) & 0x3fff_ffff_ffff_ffffu128) | (((k as u128) >> 62u32) << 64u32)
}

/// Spare identifiers have the version-4 layout and differ for different `k`.
proof fn lemma_spare_id(a: u64, b: u64)
    ensures
        is_random_v4(Uuid(spare_id(a))),
        spare_id(a) == spare_id(b) ==> a == b,
{
    assert((spare_id(a) >> 76u32) & 0xfu128 == 4u128 && (spare_id(a) >> 62u32) & 0x3u128 == 2u128)
        by (bit_vector);
    assert(spare_id(a) == spare_id(b) ==> a == b) by (bit_vector);
}

/// Among the `n + 1` spare identifiers `0..=n` one is not the id of any of
/// the `n` branches.
proof fn lemma_some_spare_id_is_free<C>(bs: Seq<Branch<C>>)
    requires
        bs.len() <= u64::MAX,
    ensures
        exists|k: int| 0 <= k <= bs.len() && !has_branch_id(bs, Uuid(#[trigger] spare_id(k as u64))),
{
    let n = bs.len() as int;
    let ids = bs.map_values(|b: Branch<C>| b.branch_id.0);
    let taken = ids.to_set();
    let ks = set_int_range(0, n + 1);
    let f = |k: int| spare_id(k as u64);
    if forall|k: int| 0 <= k <= n ==> has_branch_id(bs, Uuid(#[trigger] spare_id(k as u64))) {
        ids.lemma_cardinality_of_set();
        lemma_int_range(0, n + 1);
        assert forall|a: int, b: int| ks.contains(a) && ks.contains(b) && #[trigger] f(a) == #[trigger] f(b) implies a == b by {
            lemma_spare_id(a as u64, b as u64);
        }
        lemma_map_size(ks, ks.map(f), f);
        assert forall|v: u128| ks.map(f).contains(v) implies taken.contains(v) by {
            let k = choose|k: int| ks.contains(k) && f(k) == v;
            assert(has_branch_id(bs, Uuid(spare_id(k as u64))));
            let i = choose|i: int| 0 <= i < bs.len() && #[trigger] bs[i].branch_id == Uuid(spare_id(k as u64));
            assert(ids[i] == v);
        }
        lemma_len_subset(ks.map(f), taken);
        assert(false);
    }
}

/// The spare identifier `k`.
fn spare(k: u64) -> (id: Uuid)
    ensures
        id == Uuid(spare_id(k)),
        is_random_v4(id),
{
    proof {
        lemma_spare_id(k, k);
    }
    Uuid(0x4000_8000_0000_0000_0000u128 | ((k as u128) & 0x3fff_ffff_ffff_ffffu128) | (((k as u128) >> 62u32) << 64u32))
}

/// An identifier with the version-4 layout that differs from `other`: a
/// random draw, or a spare identifier in the rare case that the draw equals
/// `other`.
pub(crate) fn fresh_uuid_other_than(other: Uuid) -> (id: Uuid)
    ensures
        is_random_v4(id),
        id != other,
{
    let drawn = fresh_uuid();
    if drawn != other {
        return drawn;
    }
    proof {
        lemma_spare_id(0, 1);
    }
    let first = spare(0);
    if first != other {
        first
    } else {
        spare(1)
    }
}

/// An identifier with the version-4 layout that no branch of `bs` has: a
/// random draw, or, in the rare case that the draw is taken, the first free
/// spare identifier.
pub(crate) fn fresh_uuid_for<C>(bs: &Vec<Branch<C>>) -> (id: Uuid)
    ensures
        is_random_v4(id),
        !has_branch_id(bs@, id),
{
    let drawn = fresh_uuid();
    if !contains_id(bs, drawn) {
        return drawn;
    }
    proof {
        assert(bs@.len() == bs.len());
        lemma_some_spare_id_is_free(bs@);
    }
    let n: u64 = bs.len() as u64;
    let mut k: u64 = 0;
    loop
        invariant
            k <= n,
            n == bs@.len(),
            forall|j: int| 0 <= j < k ==> has_branch_id(bs@, Uuid(#[trigger] spare_id(j as u64))),
            exists|j: int| 0 <= j <= bs@.len() && !has_branch_id(bs@, Uuid(#[trigger] spare_id(j as u64))),
        decreases n - k,
    {
        let c = spare(k);
        if !contains_id(bs, c) {
            return c;
        }
        if k == n {
            proof {
                let j = choose|j: int| 0 <= j <= bs@.len() && !has_branch_id(bs@, Uuid(#[trigger] spare_id(j as u64)));
                assert(j == k || has_branch_id(bs@, Uuid(spare_id(j as u64))));
                assert(false);
            }
            return c;
        }
        k = k + 1;
    }
}

/// Some branch of `bs` has id `id`.
fn contains_id<C>(bs: &Vec<Branch<C>>, id: Uuid) -> (r: bool)
    ensures
        r == has_branch_id(bs@, id),
{
    let mut i: usize = 0;
    while i < bs.len()
        invariant
            i <= bs@.len(),
            forall|j: int| 0 <= j < i ==> #[trigger] bs@[j].branch_id != id,
        decreases bs@.len() - i,
    {
        if bs[i].branch_id == id {
            return true;
        }
        i += 1;
    }
    false
}

} // verus!
