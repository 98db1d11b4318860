//! The digest of the global peer map: the first eight bytes, read big-endian, of
//! the SHA-256 hash of a fixed prefix followed by every link of the map in
//! ascending order, each link as the big-endian bytes of its source and of its
//! destination peer.
use vstd::prelude::*;
use crate::link_order::{SrcDstPeerPair, sort_links, sorted_links};

verus! {

/// A digest of the global peer map.
pub type Digest = u64;

/// The SHA-256 hash of `data`.
pub uninterp spec fn sha256(data: Seq<u8>) -> Seq<u8>;

/// Calls `sha2::Sha256::digest` (from the trait `sha2::Digest`). Claimed: the
/// result is the SHA-256 hash of `data`, which is 32 bytes long. Nothing else is
/// claimed of the hash function.
#[verifier::external_body]
fn sha256_digest(data: &[u8]) -> (r: Vec<u8>)
    ensures
        r@ == sha256(data@),
        r@.len() == 32,
{
    <sha2::Sha256 as sha2::Digest>::digest(data).as_slice().to_vec()
}

/// The bytes `easytier-peer-digest-v1:` that every hashed message starts with.
pub open spec fn digest_prefix() -> Seq<u8> {
    seq![
        101u8, 97, 115, 121, 116, 105, 101, 114, 45, 112, 101, 101, 114, 45, 100, 105, 103, 101, 115,
        116, 45, 118, 49, 58,
    ]
}

/// The four bytes of `x`, most significant first.
pub open spec fn be_bytes_u32(x: u32) -> Seq<u8> {
    seq![(x >> 24u32) as u8, (x >> 16u32) as u8, (x >> 8u32) as u8, x as u8]
}

/// The links one after another, each as its source's bytes and then its
/// destination's bytes.
pub open spec fn encode_links(s: Seq<SrcDstPeerPair>) -> Seq<u8>
    decreases s.len(),
{
    if s.len() == 0 {
        Seq::empty()
    } else {
        encode_links(s.drop_last()) + be_bytes_u32(s.last().0) + be_bytes_u32(s.last().1)
    }
}

/// The message that is hashed for the links `s`, taken in the order given.
pub open spec fn digest_message(s: Seq<SrcDstPeerPair>) -> Seq<u8> {
    digest_prefix() + encode_links(s)
}

/// The number whose big-endian bytes are `s`.
pub open spec fn be_value(s: Seq<u8>) -> int
    decreases s.len(),
{
    if s.len() == 0 {
        0
    } else {
        be_value(s.drop_last()) * 256 + s.last()
    }
}

/// `256` to the power `n`.
pub open spec fn pow256(n: nat) -> int
    decreases n,
{
    if n == 0 {
        1
    } else {
        256 * pow256((n - 1) as nat)
    }
}

/// The digest of a hash: its first eight bytes read as a big-endian number.
pub open spec fn digest_of_hash(hash: Seq<u8>) -> Digest {
    be_value(hash.take(8)) as u64
}

/// The digest of the global peer map whose links are `keys`.
pub open spec fn spec_global_digest(keys: Set<SrcDstPeerPair>) -> Digest {
    digest_of_hash(sha256(digest_message(sorted_links(keys))))
}

proof fn lemma_pow256_monotone(i: nat, j: nat)
    requires
        i <= j,
    ensures
        1 <= pow256(i) <= pow256(j),
    decreases j,
{
    if j > 0 {
        if i < j {
            lemma_pow256_monotone(i, (j - 1) as nat);
        } else {
            lemma_pow256_monotone((i - 1) as nat, (j - 1) as nat);
        }
    }
}

proof fn lemma_be_value_bounds(s: Seq<u8>)
    ensures
        0 <= be_value(s) < pow256(s.len()),
    decreases s.len(),
{
    if s.len() > 0 {
        lemma_be_value_bounds(s.drop_last());
    }
}

/// Appends the four big-endian bytes of `x`.
fn push_be_u32(out: &mut Vec<u8>, x: u32)
    ensures
        final(out)@ == old(out)@ + be_bytes_u32(x),
{
    out.push((x >> 24u32) as u8);
    out.push((x >> 16u32) as u8);
    out.push((x >> 8u32) as u8);
    out.push(x as u8);
    assert(out@ =~= old(out)@ + be_bytes_u32(x));
}

/// The message that is hashed for the links `links`, in the order given.
pub fn digest_message_bytes(links: &Vec<SrcDstPeerPair>) -> (r: Vec<u8>)
    ensures
        r@ == digest_message(links@),
{
    let mut out: Vec<u8> = vec![
        101u8, 97, 115, 121, 116, 105, 101, 114, 45, 112, 101, 101, 114, 45, 100, 105, 103, 101, 115,
        116, 45, 118, 49, 58,
    ];
    assert(out@ =~= digest_prefix());
    let mut i: usize = 0;
    assert(links@.take(0) =~= Seq::<SrcDstPeerPair>::empty());
    assert(out@ =~= digest_prefix() + encode_links(links@.take(0)));
    while i < links.len()
        invariant
            i <= links.len(),
            out@ == digest_prefix() + encode_links(links@.take(i as int)),
        decreases links.len() - i,
    {
        let pair = links[i];
        push_be_u32(&mut out, pair.0);
        push_be_u32(&mut out, pair.1);
        assert(links@.take(i + 1).drop_last() =~= links@.take(i as int));
        assert(out@ =~= digest_prefix() + encode_links(links@.take(i + 1)));
        i = i + 1;
    }
    assert(links@.take(i as int) =~= links@);
    out
}

/// The digest of a hash: its first eight bytes read as a big-endian number.
pub fn digest_from_hash(hash: &Vec<u8>) -> (r: Digest)
    requires
        hash@.len() >= 8,
    ensures
        r == digest_of_hash(hash@),
        r as int == be_value(hash@.take(8)),
{
    let mut acc: u64 = 0;
    let mut i: usize = 0;
    assert(hash@.take(0) =~= Seq::<u8>::empty());
    while i < 8
        invariant
            i <= 8,
            hash@.len() >= 8,
            acc as int == be_value(hash@.take(i as int)),
        decreases 8 - i,
    {
        proof {
            lemma_be_value_bounds(hash@.take(i as int));
            lemma_pow256_monotone(i as nat, 7);
            reveal_with_fuel(pow256, 8);
        }
        assert(hash@.take(i + 1).drop_last() =~= hash@.take(i as int));
        acc = acc * 256 + (hash[i] as u64);
        i = i + 1;
    }
    acc
}

/// The digest of the global peer map whose links are `keys`, in whatever order
/// they come.
pub fn digest_of_links(keys: &Vec<SrcDstPeerPair>) -> (r: Digest)
    requires
        keys@.no_duplicates(),
    ensures
        r == spec_global_digest(keys@.to_set()),
{
    let sorted = sort_links(keys);
    let message = digest_message_bytes(&sorted);
    let hash = sha256_digest(message.as_slice());
    digest_from_hash(&hash)
}

proof fn lemma_encode_links_len(s: Seq<SrcDstPeerPair>)
    ensures
        encode_links(s).len() == 8 * s.len(),
    decreases s.len(),
{
    if s.len() > 0 {
        lemma_encode_links_len(s.drop_last());
    }
}

proof fn lemma_be_bytes_u32_injective(x: u32, y: u32)
    requires
        be_bytes_u32(x) == be_bytes_u32(y),
    ensures
        x == y,
{
    assert(be_bytes_u32(x)[0] == be_bytes_u32(y)[0]);
    assert(be_bytes_u32(x)[1] == be_bytes_u32(y)[1]);
    assert(be_bytes_u32(x)[2] == be_bytes_u32(y)[2]);
    assert(be_bytes_u32(x)[3] == be_bytes_u32(y)[3]);
    assert(x == y) by (bit_vector)
        requires
            (x >> 24u32) as u8 == (y >> 24u32) as u8,
            (x >> 16u32) as u8 == (y >> 16u32) as u8,
            (x >> 8u32) as u8 == (y >> 8u32) as u8,
            x as u8 == y as u8,
    ;
}

proof fn lemma_encode_links_injective(s: Seq<SrcDstPeerPair>, t: Seq<SrcDstPeerPair>)
    requires
        s.len() == t.len(),
        encode_links(s) == encode_links(t),
    ensures
        s == t,
    decreases s.len(),
{
    if s.len() == 0 {
        assert(s =~= t);
    } else {
        let n = s.len();
        lemma_encode_links_len(s.drop_last());
        lemma_encode_links_len(t.drop_last());
        let es = encode_links(s.drop_last());
        let et = encode_links(t.drop_last());
        let bs = be_bytes_u32(s.last().0) + be_bytes_u32(s.last().1);
        let bt = be_bytes_u32(t.last().0) + be_bytes_u32(t.last().1);
        assert(encode_links(s) =~= es + bs);
        assert(encode_links(t) =~= et + bt);
        assert(es =~= (es + bs).subrange(0, es.len() as int));
        assert(et =~= (et + bt).subrange(0, et.len() as int));
        lemma_encode_links_injective(s.drop_last(), t.drop_last());
        assert(bs =~= (es + bs).subrange(es.len() as int, es.len() + 8int));
        assert(bt =~= (et + bt).subrange(et.len() as int, et.len() + 8int));
        assert(be_bytes_u32(s.last().0) =~= bs.subrange(0, 4));
        assert(be_bytes_u32(t.last().0) =~= bt.subrange(0, 4));
        assert(be_bytes_u32(s.last().1) =~= bs.subrange(4, 8));
        assert(be_bytes_u32(t.last().1) =~= bt.subrange(4, 8));
        lemma_be_bytes_u32_injective(s.last().0, t.last().0);
        lemma_be_bytes_u32_injective(s.last().1, t.last().1);
        assert(s =~= s.drop_last().push(s.last()));
        assert(t =~= t.drop_last().push(t.last()));
    }
}

/// The hashed message is the 24-byte prefix followed by eight bytes for every
/// link: the source's four big-endian bytes, then the destination's.
pub proof fn law_digest_message_layout(s: Seq<SrcDstPeerPair>, i: int)
    requires
        0 <= i < s.len(),
    ensures
        digest_message(s).len() == 24 + 8 * s.len(),
        digest_message(s).subrange(0, 24) =~= seq![
            101u8, 97, 115, 121, 116, 105, 101, 114, 45, 112, 101, 101, 114, 45, 100, 105, 103, 101,
            115, 116, 45, 118, 49, 58,
        ],
        digest_message(s)[24 + 8 * i] == (s[i].0 / 0x100_0000) as u8,
        digest_message(s)[24 + 8 * i + 3] == (s[i].0 % 0x100) as u8,
        digest_message(s)[24 + 8 * i + 4] == (s[i].1 / 0x100_0000) as u8,
        digest_message(s)[24 + 8 * i + 7] == (s[i].1 % 0x100) as u8,
    decreases s.len(),
{
    lemma_encode_links_len(s);
    lemma_encode_links_len(s.drop_last());
    let es = encode_links(s.drop_last());
    let bs = be_bytes_u32(s.last().0) + be_bytes_u32(s.last().1);
    assert(encode_links(s) =~= es + bs);
    assert(digest_message(s).subrange(0, 24) =~= digest_prefix());
    if i == s.len() - 1 {
        let x = s[i].0;
        let y = s[i].1;
        assert(digest_message(s)[24 + 8 * i] == bs[0]);
        assert(digest_message(s)[24 + 8 * i + 3] == bs[3]);
        assert(digest_message(s)[24 + 8 * i + 4] == bs[4]);
        assert(digest_message(s)[24 + 8 * i + 7] == bs[7]);
        assert((x >> 24u32) as u8 == (x / 0x100_0000) as u8 && x as u8 == (x % 0x100) as u8)
            by (bit_vector);
        assert((y >> 24u32) as u8 == (y / 0x100_0000) as u8 && y as u8 == (y % 0x100) as u8)
            by (bit_vector);
    } else {
        law_digest_message_layout(s.drop_last(), i);
        assert(digest_message(s).subrange(0, 24 + 8 * (s.len() - 1)) =~= digest_message(
            s.drop_last(),
        ));
        assert(digest_message(s)[24 + 8 * i] == digest_message(s.drop_last())[24 + 8 * i]);
        assert(digest_message(s)[24 + 8 * i + 3] == digest_message(s.drop_last())[24 + 8 * i + 3]);
        assert(digest_message(s)[24 + 8 * i + 4] == digest_message(s.drop_last())[24 + 8 * i + 4]);
        assert(digest_message(s)[24 + 8 * i + 7] == digest_message(s.drop_last())[24 + 8 * i + 7]);
    }
}

/// Every link goes into the hashed message: two different link sequences give
/// two different messages, so changing, adding or removing any link changes what
/// is hashed.
pub proof fn law_digest_message_injective(s: Seq<SrcDstPeerPair>, t: Seq<SrcDstPeerPair>)
    requires
        digest_message(s) == digest_message(t),
    ensures
        s == t,
        digest_message(s).len() == 24 + 8 * s.len(),
{
    lemma_encode_links_len(s);
    lemma_encode_links_len(t);
    let ms = digest_message(s);
    assert(encode_links(s) =~= ms.subrange(24, ms.len() as int));
    assert(encode_links(t) =~= digest_message(t).subrange(24, ms.len() as int));
    lemma_encode_links_injective(s, t);
}

/// The digest is the first eight bytes of the hash read most significant first.
pub proof fn law_digest_of_hash_big_endian(h: Seq<u8>)
    requires
        h.len() >= 8,
    ensures
        digest_of_hash(h) as int == h[0] * 0x100_0000_0000_0000 + h[1] * 0x1_0000_0000_0000
            + h[2] * 0x100_0000_0000 + h[3] * 0x1_0000_0000 + h[4] * 0x100_0000 + h[5] * 0x1_0000
            + h[6] * 0x100 + h[7],
{
    let t = h.take(8);
    reveal_with_fuel(be_value, 9);
    assert(t.drop_last() =~= h.take(7));
    assert(h.take(7).drop_last() =~= h.take(6));
    assert(h.take(6).drop_last() =~= h.take(5));
    assert(h.take(5).drop_last() =~= h.take(4));
    assert(h.take(4).drop_last() =~= h.take(3));
    assert(h.take(3).drop_last() =~= h.take(2));
    assert(h.take(2).drop_last() =~= h.take(1));
    assert(h.take(1).drop_last() =~= h.take(0));
    lemma_be_value_bounds(t);
    reveal_with_fuel(pow256, 9);
}

} // verus!
