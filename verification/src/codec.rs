//! Big-endian integer codecs, lexicographic byte order, and the composite
//! index key `identifier_bytes ++ block_be32 ++ event_index_be32`.
//!
//! The big-endian choice is load-bearing: the sorted-byte order of composite
//! keys under a fixed identifier must coincide with the numeric order of
//! `(block_number, event_index)`, so that a prefix scan yields events in
//! chronological order.  The lemmas at the end of this module state that
//! coincidence.

use vstd::prelude::*;

verus! {

/// The four bytes of `x` in big-endian order, most significant first.
pub open spec fn spec_u32_to_be_bytes(x: u32) -> Seq<u8> {
    seq![
        ((x >> 24) & 0xff) as u8,
        ((x >> 16) & 0xff) as u8,
        ((x >> 8) & 0xff) as u8,
        (x & 0xff) as u8,
    ]
}

/// The u32 denoted by a four-byte big-endian sequence.
pub open spec fn spec_u32_from_be_bytes(s: Seq<u8>) -> u32
    recommends
        s.len() == 4,
{
    (((s[0] as u32) << 24) | ((s[1] as u32) << 16) | ((s[2] as u32) << 8) | (s[3] as u32)) as u32
}

/// Decoding the big-endian bytes of `x` yields `x` back.
pub proof fn lemma_u32_be_bytes_round_trip(x: u32)
    ensures
        spec_u32_from_be_bytes(spec_u32_to_be_bytes(x)) == x,
{
    let s = spec_u32_to_be_bytes(x);
    let b0 = s[0];
    let b1 = s[1];
    let b2 = s[2];
    let b3 = s[3];
    assert((((((x >> 24) & 0xff) as u8) as u32) << 24) | ((((x >> 16) & 0xff) as u8 as u32) << 16)
        | ((((x >> 8) & 0xff) as u8 as u32) << 8) | ((x & 0xff) as u8 as u32) == x) by (bit_vector);
}

/// Any four bytes are the big-endian encoding of the value they denote.
pub proof fn lemma_u32_be_bytes_inverse(s: Seq<u8>)
    requires
        s.len() == 4,
    ensures
        spec_u32_to_be_bytes(spec_u32_from_be_bytes(s)) == s,
{
    let x = spec_u32_from_be_bytes(s);
    let s0 = s[0];
    let s1 = s[1];
    let s2 = s[2];
    let s3 = s[3];
    assert(((x >> 24) & 0xff) as u8 == s0 && ((x >> 16) & 0xff) as u8 == s1 && ((x >> 8) & 0xff)
        as u8 == s2 && (x & 0xff) as u8 == s3) by (bit_vector)
        requires
            x == ((((s0 as u32) << 24) | ((s1 as u32) << 16) | ((s2 as u32) << 8) | (s3 as u32))
                as u32),
    ;
    assert(spec_u32_to_be_bytes(x) =~= s);
}

/// Big-endian encoding is injective.
pub proof fn lemma_u32_be_bytes_injective(x: u32, y: u32)
    ensures
        spec_u32_to_be_bytes(x) == spec_u32_to_be_bytes(y) ==> x == y,
{
    if spec_u32_to_be_bytes(x) == spec_u32_to_be_bytes(y) {
        lemma_u32_be_bytes_round_trip(x);
        lemma_u32_be_bytes_round_trip(y);
    }
}

/// Appends the big-endian bytes of `x` to `out`.
pub fn push_u32_be_bytes(out: &mut Vec<u8>, x: u32)
    ensures
        final(out)@ == old(out)@ + spec_u32_to_be_bytes(x),
{
    out.push(((x >> 24) & 0xff) as u8);
    out.push(((x >> 16) & 0xff) as u8);
    out.push(((x >> 8) & 0xff) as u8);
    out.push((x & 0xff) as u8);
    assert(out@ =~= old(out)@ + spec_u32_to_be_bytes(x));
}

/// Rebuilds a u32 from four big-endian bytes.
pub fn u32_from_be_4(b0: u8, b1: u8, b2: u8, b3: u8) -> (r: u32)
    ensures
        r == spec_u32_from_be_bytes(seq![b0, b1, b2, b3]),
{
    ((b0 as u32) << 24) | ((b1 as u32) << 16) | ((b2 as u32) << 8) | (b3 as u32)
}

/// Appends every byte of `add` to `out`.
pub fn append_vec(out: &mut Vec<u8>, add: &Vec<u8>)
    ensures
        final(out)@ == old(out)@ + add@,
{
    let mut i: usize = 0;
    while i < add.len()
        invariant
            i <= add@.len(),
            out@ =~= old(out)@ + add@.take(i as int),
        decreases add@.len() - i,
    {
        out.push(add[i]);
        assert(out@ =~= old(out)@ + add@.take(i as int + 1));
        i = i + 1;
    }
    assert(out@ =~= old(out)@ + add@);
}

/// The four bytes of `x` in little-endian order, as used in stored event
/// payloads.
pub open spec fn spec_u32_le(x: u32) -> Seq<u8> {
    vstd::bytes::spec_u32_to_le_bytes(x)
}

/// The sixteen bytes of `x` in little-endian order, as used in stored event
/// payloads.
pub open spec fn spec_u128_le(x: u128) -> Seq<u8> {
    vstd::bytes::spec_u64_to_le_bytes((x & 0xffff_ffff_ffff_ffff) as u64)
        + vstd::bytes::spec_u64_to_le_bytes(((x >> 64) & 0xffff_ffff_ffff_ffff) as u64)
}

/// The u32 denoted by four little-endian bytes.
pub open spec fn spec_u32_from_le(s: Seq<u8>) -> u32 {
    vstd::bytes::spec_u32_from_le_bytes(s)
}

/// The u128 denoted by sixteen little-endian bytes.
pub open spec fn spec_u128_from_le(s: Seq<u8>) -> u128 {
    (vstd::bytes::spec_u64_from_le_bytes(s.take(8)) as u128) | ((vstd::bytes::spec_u64_from_le_bytes(
        s.skip(8),
    ) as u128) << 64)
}

/// Little-endian u32 encoding round-trips.
pub proof fn lemma_u32_le_round_trip(x: u32)
    ensures
        spec_u32_from_le(spec_u32_le(x)) == x,
{
    vstd::bytes::lemma_auto_spec_u32_to_from_le_bytes();
    assert(vstd::bytes::spec_u32_to_le_bytes(x).len() == 4);
}

/// Little-endian u128 encoding round-trips.
pub proof fn lemma_u128_le_round_trip(x: u128)
    ensures
        spec_u128_from_le(spec_u128_le(x)) == x,
{
    let lo = (x & 0xffff_ffff_ffff_ffff) as u64;
    let hi = ((x >> 64) & 0xffff_ffff_ffff_ffff) as u64;
    let s = spec_u128_le(x);
    vstd::bytes::lemma_auto_spec_u64_to_from_le_bytes();
    assert(vstd::bytes::spec_u64_to_le_bytes(lo).len() == 8);
    assert(vstd::bytes::spec_u64_to_le_bytes(hi).len() == 8);
    assert(s.take(8) =~= vstd::bytes::spec_u64_to_le_bytes(lo));
    assert(s.skip(8) =~= vstd::bytes::spec_u64_to_le_bytes(hi));
    assert(((lo as u128) | ((hi as u128) << 64)) == x) by (bit_vector)
        requires
            lo == (x & 0xffff_ffff_ffff_ffff) as u64,
            hi == ((x >> 64) & 0xffff_ffff_ffff_ffff) as u64,
    ;
}

/// Appends the little-endian bytes of `x` to `out`.
pub fn push_u32_le(out: &mut Vec<u8>, x: u32)
    ensures
        final(out)@ == old(out)@ + spec_u32_le(x),
{
    let b = vstd::bytes::u32_to_le_bytes(x);
    append_vec(out, &b);
}

/// Appends the sixteen little-endian bytes of `x` to `out`.
pub fn push_u128_le(out: &mut Vec<u8>, x: u128)
    ensures
        final(out)@ == old(out)@ + spec_u128_le(x),
{
    assert(x & 0xffff_ffff_ffff_ffff <= 0xffff_ffff_ffff_ffff) by (bit_vector);
    assert((x >> 64) & 0xffff_ffff_ffff_ffff <= 0xffff_ffff_ffff_ffff) by (bit_vector);
    let lo: u64 = (x & 0xffff_ffff_ffff_ffff) as u64;
    let hi: u64 = ((x >> 64) & 0xffff_ffff_ffff_ffff) as u64;
    let b_lo = vstd::bytes::u64_to_le_bytes(lo);
    append_vec(out, &b_lo);
    let b_hi = vstd::bytes::u64_to_le_bytes(hi);
    append_vec(out, &b_hi);
    assert(out@ =~= old(out)@ + spec_u128_le(x));
}

/// Strict lexicographic order on byte sequences: `a` comes before `b` in the
/// sorted-key order of the store.  A proper prefix comes before its extension.
pub open spec fn lex_lt(a: Seq<u8>, b: Seq<u8>) -> bool
    decreases a.len(),
{
    if b.len() == 0 {
        false
    } else if a.len() == 0 {
        true
    } else if a[0] < b[0] {
        true
    } else if a[0] > b[0] {
        false
    } else {
        lex_lt(a.drop_first(), b.drop_first())
    }
}

/// `p` is a prefix of `k`.
pub open spec fn is_prefix_of(p: Seq<u8>, k: Seq<u8>) -> bool {
    p.len() <= k.len() && k.take(p.len() as int) == p
}

/// A common first element reduces lexicographic comparison to the tails.
proof fn lemma_lex_lt_cons(a: Seq<u8>, b: Seq<u8>)
    requires
        a.len() > 0,
        b.len() > 0,
        a[0] == b[0],
    ensures
        lex_lt(a, b) <==> lex_lt(a.drop_first(), b.drop_first()),
{
}

/// A common prefix reduces lexicographic comparison to the suffixes.
pub proof fn lemma_lex_lt_common_prefix(p: Seq<u8>, a: Seq<u8>, b: Seq<u8>)
    ensures
        lex_lt(p + a, p + b) <==> lex_lt(a, b),
    decreases p.len(),
{
    if p.len() == 0 {
        assert(p + a =~= a);
        assert(p + b =~= b);
    } else {
        let pa = p + a;
        let pb = p + b;
        assert(pa[0] == pb[0]);
        assert(pa.drop_first() =~= p.drop_first() + a);
        assert(pb.drop_first() =~= p.drop_first() + b);
        lemma_lex_lt_cons(pa, pb);
        lemma_lex_lt_common_prefix(p.drop_first(), a, b);
    }
}

/// For equal-length left parts, lexicographic order of concatenations is the
/// order of the left parts, with ties broken by the right parts.
pub proof fn lemma_lex_lt_eq_len(a1: Seq<u8>, c1: Seq<u8>, a2: Seq<u8>, c2: Seq<u8>)
    requires
        a1.len() == a2.len(),
    ensures
        lex_lt(a1 + c1, a2 + c2) <==> (lex_lt(a1, a2) || (a1 == a2 && lex_lt(c1, c2))),
    decreases a1.len(),
{
    if a1.len() == 0 {
        assert(a1 =~= a2);
        assert(a1 + c1 =~= c1);
        assert(a2 + c2 =~= c2);
    } else {
        let x1 = a1 + c1;
        let x2 = a2 + c2;
        assert(x1[0] == a1[0]);
        assert(x2[0] == a2[0]);
        assert(x1.drop_first() =~= a1.drop_first() + c1);
        assert(x2.drop_first() =~= a2.drop_first() + c2);
        lemma_lex_lt_eq_len(a1.drop_first(), c1, a2.drop_first(), c2);
        if a1[0] == a2[0] {
            lemma_lex_lt_cons(x1, x2);
            if a1.drop_first() == a2.drop_first() {
                assert forall|i: int| 0 <= i < a1.len() implies a1[i] == a2[i] by {
                    if i > 0 {
                        assert(a1[i] == a1.drop_first()[i - 1]);
                        assert(a2[i] == a2.drop_first()[i - 1]);
                    }
                }
                assert(a1 =~= a2);
            }
        }
    }
}

/// Unfolds the lexicographic order on four-byte sequences.
proof fn lemma_lex_lt_4(a: Seq<u8>, b: Seq<u8>)
    requires
        a.len() == 4,
        b.len() == 4,
    ensures
        lex_lt(a, b) <==> (a[0] < b[0] || (a[0] == b[0] && (a[1] < b[1] || (a[1] == b[1] && (a[2]
            < b[2] || (a[2] == b[2] && a[3] < b[3])))))),
{
    let a1 = a.drop_first();
    let b1 = b.drop_first();
    let a2 = a1.drop_first();
    let b2 = b1.drop_first();
    let a3 = a2.drop_first();
    let b3 = b2.drop_first();
    assert(a1.len() == 3 && a1[0] == a[1] && a1[1] == a[2] && a1[2] == a[3]);
    assert(b1.len() == 3 && b1[0] == b[1] && b1[1] == b[2] && b1[2] == b[3]);
    assert(a2.len() == 2 && a2[0] == a[2] && a2[1] == a[3]);
    assert(b2.len() == 2 && b2[0] == b[2] && b2[1] == b[3]);
    assert(a3.len() == 1 && a3[0] == a[3]);
    assert(b3.len() == 1 && b3[0] == b[3]);
    assert(a3.drop_first().len() == 0);
    assert(b3.drop_first().len() == 0);
    reveal_with_fuel(lex_lt, 6);
}

/// Big-endian encoding preserves numeric order.
pub proof fn lemma_u32_be_bytes_order(x: u32, y: u32)
    ensures
        x < y <==> lex_lt(spec_u32_to_be_bytes(x), spec_u32_to_be_bytes(y)),
{
    let a = spec_u32_to_be_bytes(x);
    let b = spec_u32_to_be_bytes(y);
    let x0 = ((x >> 24) & 0xff) as u8;
    let x1 = ((x >> 16) & 0xff) as u8;
    let x2 = ((x >> 8) & 0xff) as u8;
    let x3 = (x & 0xff) as u8;
    let y0 = ((y >> 24) & 0xff) as u8;
    let y1 = ((y >> 16) & 0xff) as u8;
    let y2 = ((y >> 8) & 0xff) as u8;
    let y3 = (y & 0xff) as u8;
    assert(x < y <==> (x0 < y0 || (x0 == y0 && (x1 < y1 || (x1 == y1 && (x2 < y2 || (x2 == y2
        && x3 < y3))))))) by (bit_vector)
        requires
            x0 == ((x >> 24) & 0xff) as u8,
            x1 == ((x >> 16) & 0xff) as u8,
            x2 == ((x >> 8) & 0xff) as u8,
            x3 == (x & 0xff) as u8,
            y0 == ((y >> 24) & 0xff) as u8,
            y1 == ((y >> 16) & 0xff) as u8,
            y2 == ((y >> 8) & 0xff) as u8,
            y3 == (y & 0xff) as u8,
    ;
    assert(a[0] == x0 && a[1] == x1 && a[2] == x2 && a[3] == x3);
    assert(b[0] == y0 && b[1] == y1 && b[2] == y2 && b[3] == y3);
    lemma_lex_lt_4(a, b);
}

/// The composite index key: identifier bytes, then the block number and the
/// event index, each as four big-endian bytes.
pub open spec fn spec_composite_key(id: Seq<u8>, block_number: u32, event_index: u32) -> Seq<u8> {
    id + spec_u32_to_be_bytes(block_number) + spec_u32_to_be_bytes(event_index)
}

/// Builds the composite key for an identifier already rendered to bytes.
pub fn composite_key(id: &Vec<u8>, block_number: u32, event_index: u32) -> (r: Vec<u8>)
    ensures
        r@ == spec_composite_key(id@, block_number, event_index),
{
    let mut out: Vec<u8> = Vec::new();
    let mut j: usize = 0;
    while j < id.len()
        invariant
            j <= id@.len(),
            out@ =~= id@.take(j as int),
        decreases id@.len() - j,
    {
        out.push(id[j]);
        j = j + 1;
    }
    assert(out@ =~= id@);
    push_u32_be_bytes(&mut out, block_number);
    push_u32_be_bytes(&mut out, event_index);
    assert(out@ =~= spec_composite_key(id@, block_number, event_index));
    out
}

/// The suffix of a composite key decodes back to its two numeric fields.
pub proof fn lemma_composite_key_parts(id: Seq<u8>, block_number: u32, event_index: u32)
    ensures
        spec_composite_key(id, block_number, event_index).len() == id.len() as int + 8,
        spec_composite_key(id, block_number, event_index).take(id.len() as int) == id,
        spec_u32_from_be_bytes(
            spec_composite_key(id, block_number, event_index).subrange(
                id.len() as int,
                id.len() as int + 4,
            ),
        ) == block_number,
        spec_u32_from_be_bytes(
            spec_composite_key(id, block_number, event_index).subrange(
                id.len() as int + 4,
                id.len() as int + 8,
            ),
        ) == event_index,
{
    let k = spec_composite_key(id, block_number, event_index);
    assert(k.take(id.len() as int) =~= id);
    assert(k.subrange(id.len() as int, id.len() as int + 4) =~= spec_u32_to_be_bytes(block_number));
    assert(k.subrange(id.len() as int + 4, id.len() as int + 8) =~= spec_u32_to_be_bytes(event_index));
    lemma_u32_be_bytes_round_trip(block_number);
    lemma_u32_be_bytes_round_trip(event_index);
}

/// Two composite keys with identifiers of one length agree exactly when all
/// three parts agree: the encoding is injective.
pub proof fn lemma_composite_key_injective(
    id1: Seq<u8>,
    b1: u32,
    i1: u32,
    id2: Seq<u8>,
    b2: u32,
    i2: u32,
)
    requires
        id1.len() == id2.len(),
    ensures
        spec_composite_key(id1, b1, i1) == spec_composite_key(id2, b2, i2) <==> (id1 == id2 && b1
            == b2 && i1 == i2),
{
    if spec_composite_key(id1, b1, i1) == spec_composite_key(id2, b2, i2) {
        lemma_composite_key_parts(id1, b1, i1);
        lemma_composite_key_parts(id2, b2, i2);
    }
}

/// Prefix correctness at the key level: among composite keys built over
/// identifiers of one length, an identifier prefixes exactly its own keys.
pub proof fn lemma_composite_key_prefix(id1: Seq<u8>, b1: u32, i1: u32, id2: Seq<u8>)
    requires
        id1.len() == id2.len(),
    ensures
        is_prefix_of(id2, spec_composite_key(id1, b1, i1)) <==> id1 == id2,
{
    let k = spec_composite_key(id1, b1, i1);
    assert(k.take(id1.len() as int) =~= id1);
}

/// Order coincidence: with the identifier fixed, lexicographic byte order of
/// composite keys is exactly the numeric order of `(block_number,
/// event_index)` pairs.
pub proof fn lemma_order_coincidence(id: Seq<u8>, b1: u32, i1: u32, b2: u32, i2: u32)
    ensures
        lex_lt(spec_composite_key(id, b1, i1), spec_composite_key(id, b2, i2)) <==> (b1 < b2 || (b1
            == b2 && i1 < i2)),
{
    let s1 = spec_u32_to_be_bytes(b1) + spec_u32_to_be_bytes(i1);
    let s2 = spec_u32_to_be_bytes(b2) + spec_u32_to_be_bytes(i2);
    assert(spec_composite_key(id, b1, i1) =~= id + s1);
    assert(spec_composite_key(id, b2, i2) =~= id + s2);
    lemma_lex_lt_common_prefix(id, s1, s2);
    lemma_lex_lt_eq_len(
        spec_u32_to_be_bytes(b1),
        spec_u32_to_be_bytes(i1),
        spec_u32_to_be_bytes(b2),
        spec_u32_to_be_bytes(i2),
    );
    lemma_u32_be_bytes_order(b1, b2);
    lemma_u32_be_bytes_order(i1, i2);
    lemma_u32_be_bytes_injective(b1, b2);
    lemma_u32_be_bytes_injective(b2, b1);
}

} // verus!
