use vstd::prelude::*;

use crate::ids::CollectionId;
use vstd::string::StringSliceAdditionalSpecFns;

verus! {

/// The key space under which collection snapshots are cached.
pub const COLLECTIONS_NAMESPACE: &'static str = "collections";

/// How long a cached snapshot lives, in seconds.
pub const DEFAULT_EXPIRY: i64 = 1800;

/// ASCII digits of a natural number, most significant first.
pub open spec fn decimal_digits(n: nat) -> Seq<u8>
    decreases n,
{
    if n < 10 {
        seq![(48 + n) as u8]
    } else {
        decimal_digits(n / 10).push((48 + n % 10) as u8)
    }
}

/// ASCII decimal form of an integer, with a leading '-' when negative.
pub open spec fn decimal(n: int) -> Seq<u8> {
    if n < 0 {
        seq![45u8] + decimal_digits((-n) as nat)
    } else {
        decimal_digits(n as nat)
    }
}

/// The cache key of an entity: `<namespace>:<id>`.
pub open spec fn key_of(namespace: Seq<u8>, id: CollectionId) -> Seq<u8> {
    namespace + seq![58u8] + decimal(id.0 as int)
}

proof fn lemma_digits_shape(n: nat)
    ensures
        decimal_digits(n).len() >= 1,
        (decimal_digits(n).len() == 1) == (n < 10),
        forall|i: int| 0 <= i < decimal_digits(n).len() ==> 48 <= #[trigger] decimal_digits(n)[i] <= 57,
    decreases n,
{
    if n >= 10 {
        lemma_digits_shape(n / 10);
    }
}

proof fn lemma_digits_injective(a: nat, b: nat)
    requires
        decimal_digits(a) == decimal_digits(b),
    ensures
        a == b,
    decreases a,
{
    lemma_digits_shape(a);
    lemma_digits_shape(b);
    if a >= 10 {
        assert(decimal_digits(a).drop_last() =~= decimal_digits(a / 10));
        assert(decimal_digits(b).drop_last() =~= decimal_digits(b / 10));
        lemma_digits_injective(a / 10, b / 10);
        assert(decimal_digits(a).last() == decimal_digits(b).last());
        assert(decimal_digits(a).last() == (48 + a % 10) as u8);
        assert(decimal_digits(b).last() == (48 + b % 10) as u8);
        assert(a % 10 == b % 10);
        assert(a == (a / 10) * 10 + a % 10) by (nonlinear_arith);
        assert(b == (b / 10) * 10 + b % 10) by (nonlinear_arith);
    } else {
        assert(b < 10);
        assert(decimal_digits(a)[0] == (48 + a) as u8);
        assert(decimal_digits(b)[0] == (48 + b) as u8);
        assert(decimal_digits(a)[0] == decimal_digits(b)[0]);
    }
}

/// Distinct collections never share a cache key within a namespace, so
/// invalidating one entry never touches another collection's snapshot.
pub proof fn lemma_key_of_injective(namespace: Seq<u8>, a: CollectionId, b: CollectionId)
    requires
        key_of(namespace, a) == key_of(namespace, b),
    ensures
        a == b,
{
    let start = namespace.len() as int + 1;
    let ka = key_of(namespace, a);
    let da = decimal(a.0 as int);
    let db = decimal(b.0 as int);
    assert(ka.subrange(start, ka.len() as int) =~= da);
    assert(key_of(namespace, b).subrange(start, ka.len() as int) =~= db);
    assert(da == db);
    if a.0 < 0 {
        assert(da[0] == 45u8);
        if b.0 >= 0 {
            lemma_digits_shape(b.0 as nat);
            assert(db[0] >= 48);
        }
        assert(da.subrange(1, da.len() as int) =~= decimal_digits((-a.0) as nat));
        assert(db.subrange(1, db.len() as int) =~= decimal_digits((-b.0) as nat));
        lemma_digits_injective((-a.0) as nat, (-b.0) as nat);
    } else {
        if b.0 < 0 {
            lemma_digits_shape(a.0 as nat);
            assert(da[0] >= 48);
            assert(db[0] == 45u8);
        }
        lemma_digits_injective(a.0 as nat, b.0 as nat);
    }
}

fn push_digits(n: u64, out: &mut Vec<u8>)
    ensures
        final(out)@ == old(out)@ + decimal_digits(n as nat),
    decreases n,
{
    if n >= 10 {
        push_digits(n / 10, out);
    }
    out.push(48u8 + (n % 10) as u8);
    proof {
        if n >= 10 {
            assert(old(out)@ + decimal_digits(n as nat) =~= old(out)@ + decimal_digits(
                (n / 10) as nat,
            ) + seq![(48 + n % 10) as u8]);
        }
    }
}

/// Builds the cache key of `id` in `namespace`.
pub fn cache_key(namespace: &str, id: CollectionId) -> (r: Vec<u8>)
    ensures
        r@ == key_of(namespace.spec_bytes(), id),
{
    let prefix = namespace.as_bytes();
    let mut out: Vec<u8> = Vec::new();
    let mut i: usize = 0;
    while i < prefix.len()
        invariant
            0 <= i <= prefix@.len(),
            prefix@ == namespace.spec_bytes(),
            out@ == prefix@.subrange(0, i as int),
        decreases prefix@.len() - i,
    {
        out.push(prefix[i]);
        i = i + 1;
        assert(out@ =~= prefix@.subrange(0, i as int));
    }
    assert(out@ =~= namespace.spec_bytes());
    out.push(58u8);
    let n = id.0;
    if n < 0 {
        out.push(45u8);
        let m: u64 = (-(n as i128)) as u64;
        push_digits(m, &mut out);
        assert(out@ =~= key_of(namespace.spec_bytes(), id));
    } else {
        push_digits(n as u64, &mut out);
        assert(out@ =~= key_of(namespace.spec_bytes(), id));
    }
    out
}

/// Builds the cache keys of `ids`, one per id and in the same order.
pub fn cache_keys(namespace: &str, ids: &Vec<CollectionId>) -> (r: Vec<Vec<u8>>)
    ensures
        r@.len() == ids@.len(),
        forall|i: int| 0 <= i < ids@.len() ==> (#[trigger] r@[i])@ == key_of(namespace.spec_bytes(), ids@[i]),
{
    let mut keys: Vec<Vec<u8>> = Vec::new();
    let mut i: usize = 0;
    while i < ids.len()
        invariant
            0 <= i <= ids@.len(),
            keys@.len() == i,
            forall|j: int| 0 <= j < i ==> (#[trigger] keys@[j])@ == key_of(namespace.spec_bytes(), ids@[j]),
        decreases ids@.len() - i,
    {
        keys.push(cache_key(namespace, ids[i]));
        i = i + 1;
    }
    keys
}

} // verus!
