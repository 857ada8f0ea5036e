//! The flat byte image of a parameter block: every lane as four bytes,
//! least significant first, in field order, with no header.
use vstd::prelude::*;

verus! {

/// The four bytes of a lane, least significant first.
pub open spec fn lane_bytes(x: i32) -> Seq<u8> {
    let u = x as u32;
    seq![(u & 0xff) as u8, ((u >> 8u32) & 0xff) as u8, ((u >> 16u32) & 0xff) as u8, ((u >> 24u32) & 0xff) as u8]
}

/// The lane that four bytes, least significant first, stand for.
pub open spec fn lane_of(b0: u8, b1: u8, b2: u8, b3: u8) -> i32 {
    ((b0 as u32) | ((b1 as u32) << 8u32) | ((b2 as u32) << 16u32) | ((b3 as u32) << 24u32)) as i32
}

/// The byte image of a sequence of lanes.
pub open spec fn encode(lanes: Seq<i32>) -> Seq<u8>
    decreases lanes.len(),
{
    if lanes.len() == 0 {
        Seq::empty()
    } else {
        encode(lanes.drop_last()) + lane_bytes(lanes.last())
    }
}

/// The lanes that a byte image stands for; trailing bytes that do not
/// make a whole lane are ignored.
pub open spec fn decode(bytes: Seq<u8>) -> Seq<i32> {
    Seq::new(
        bytes.len() / 4,
        |k: int| lane_of(bytes[4 * k], bytes[4 * k + 1], bytes[4 * k + 2], bytes[4 * k + 3]),
    )
}

proof fn lemma_lane_round_trip(x: i32)
    ensures
        lane_of(lane_bytes(x)[0], lane_bytes(x)[1], lane_bytes(x)[2], lane_bytes(x)[3]) == x,
{
    let u = x as u32;
    let b0 = (u & 0xff) as u8;
    let b1 = ((u >> 8u32) & 0xff) as u8;
    let b2 = ((u >> 16u32) & 0xff) as u8;
    let b3 = ((u >> 24u32) & 0xff) as u8;
    assert(((b0 as u32) | ((b1 as u32) << 8u32) | ((b2 as u32) << 16u32) | ((b3 as u32) << 24u32)) == u) by (bit_vector)
        requires
            b0 == (u & 0xff) as u8,
            b1 == ((u >> 8u32) & 0xff) as u8,
            b2 == ((u >> 16u32) & 0xff) as u8,
            b3 == ((u >> 24u32) & 0xff) as u8,
    ;
    assert((u as i32) == x) by (bit_vector)
        requires
            u == x as u32,
    ;
}

proof fn lemma_encode_index(lanes: Seq<i32>, k: int, t: int)
    requires
        0 <= k < lanes.len(),
        0 <= t < 4,
    ensures
        encode(lanes).len() == 4 * lanes.len(),
        encode(lanes)[4 * k + t] == lane_bytes(lanes[k])[t],
    decreases lanes.len(),
{
    let prev = lanes.drop_last();
    if k < lanes.len() - 1 {
        lemma_encode_index(prev, k, t);
    } else if prev.len() > 0 {
        lemma_encode_index(prev, 0, 0);
    }
}

/// Decoding the byte image of some lanes gives those lanes back.
pub proof fn lemma_decode_encode(lanes: Seq<i32>)
    ensures
        encode(lanes).len() == 4 * lanes.len(),
        decode(encode(lanes)) == lanes,
{
    if lanes.len() > 0 {
        lemma_encode_index(lanes, 0, 0);
    }
    let bytes = encode(lanes);
    assert forall|k: int| 0 <= k < lanes.len() implies #[trigger] decode(bytes)[k] == lanes[k] by {
        lemma_encode_index(lanes, k, 0);
        lemma_encode_index(lanes, k, 1);
        lemma_encode_index(lanes, k, 2);
        lemma_encode_index(lanes, k, 3);
        lemma_lane_round_trip(lanes[k]);
    }
    assert(decode(bytes) =~= lanes);
}

/// The byte image of `lanes`.
pub fn encode_lanes(lanes: &Vec<i32>) -> (r: Vec<u8>)
    ensures
        r@ == encode(lanes@),
{
    let mut out: Vec<u8> = Vec::new();
    let mut k: usize = 0;
    while k < lanes.len()
        invariant
            k <= lanes@.len(),
            out@ == encode(lanes@.subrange(0, k as int)),
        decreases lanes@.len() - k,
    {
        let u = lanes[k] as u32;
        out.push((u & 0xff) as u8);
        out.push(((u >> 8u32) & 0xff) as u8);
        out.push(((u >> 16u32) & 0xff) as u8);
        out.push(((u >> 24u32) & 0xff) as u8);
        proof {
            let s = lanes@.subrange(0, k as int + 1);
            assert(s.drop_last() =~= lanes@.subrange(0, k as int));
            assert(out@ =~= encode(s));
        }
        k += 1;
    }
    assert(lanes@.subrange(0, lanes@.len() as int) =~= lanes@);
    out
}

/// The lanes of a byte image; `None` where its length is not a whole
/// number of lanes.
pub fn decode_lanes(bytes: &Vec<u8>) -> (r: Option<Vec<i32>>)
    ensures
        r is Some <==> bytes@.len() % 4 == 0,
        r matches Some(v) ==> v@ == decode(bytes@),
{
    if bytes.len() % 4 != 0 {
        return None;
    }
    let len = bytes.len();
    let n = len / 4;
    let mut out: Vec<i32> = Vec::new();
    let mut k: usize = 0;
    while k < n
        invariant
            len == bytes@.len(),
            n == bytes@.len() / 4,
            k <= n,
            out@ == decode(bytes@).subrange(0, k as int),
        decreases n - k,
    {
        assert(4 * k + 3 < bytes@.len()) by (nonlinear_arith)
            requires
                k < n,
                n == bytes@.len() / 4,
        ;
        let i = 4 * k;
        let u = (bytes[i] as u32) | ((bytes[i + 1] as u32) << 8u32) | ((bytes[i + 2] as u32) << 16u32)
            | ((bytes[i + 3] as u32) << 24u32);
        let x = #[verifier::truncate] (u as i32);
        out.push(x);
        k += 1;
        assert(out@ =~= decode(bytes@).subrange(0, k as int));
    }
    assert(out@ =~= decode(bytes@));
    Some(out)
}

} // verus!
