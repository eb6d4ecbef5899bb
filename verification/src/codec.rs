//! The binary encoding of the progress record. The format is
//! self-checking: a little-endian length header covers the payload, the
//! two index lists carry their counts, and the seed is tagged and
//! length-prefixed, so a buffer is accepted only when it is, byte for
//! byte, the one canonical encoding of a well-formed record.

use vstd::prelude::*;

use vstd::utf8::{decode_utf8, encode_utf8, valid_utf8};

use crate::save_data::{SaveData, SaveDataView};

verus! {

/// The eight little-endian bytes of a 64-bit value.
pub open spec fn u64_bytes(x: u64) -> Seq<u8> {
    seq![
        x as u8,
        (x >> 8) as u8,
        (x >> 16) as u8,
        (x >> 24) as u8,
        (x >> 32) as u8,
        (x >> 40) as u8,
        (x >> 48) as u8,
        (x >> 56) as u8,
    ]
}

/// The 64-bit value eight little-endian bytes stand for.
pub open spec fn u64_of_bytes(b: Seq<u8>) -> u64
    recommends
        b.len() == 8,
{
    ((b[0] as u64) | ((b[1] as u64) << 8) | ((b[2] as u64) << 16) | ((b[3] as u64) << 24) | ((
    b[4] as u64) << 32) | ((b[5] as u64) << 40) | ((b[6] as u64) << 48) | ((b[7] as u64) << 56))
}

/// Splitting a value into bytes and reassembling them gives the value
/// back; the byte form is therefore unique.
pub proof fn lemma_u64_bytes_roundtrip(x: u64)
    ensures
        u64_of_bytes(u64_bytes(x)) == x,
{
    assert((((x as u8) as u64) | ((((x >> 8) as u8) as u64) << 8) | ((((x >> 16) as u8) as u64)
        << 16) | ((((x >> 24) as u8) as u64) << 24) | ((((x >> 32) as u8) as u64) << 32) | ((((x
        >> 40) as u8) as u64) << 40) | ((((x >> 48) as u8) as u64) << 48) | ((((x >> 56) as u8)
        as u64) << 56)) == x) by (bit_vector);
}

/// A signed id and its two's-complement 64-bit form stand for each
/// other.
pub proof fn lemma_i64_cast_roundtrip(x: i64)
    ensures
        (x as u64) as i64 == x,
{
    assert((x as u64) as i64 == x) by (bit_vector);
}

/// The bytes of a list of values, in order.
pub open spec fn encode_list_u64(s: Seq<u64>) -> Seq<u8>
    decreases s.len(),
{
    if s.len() == 0 {
        Seq::empty()
    } else {
        encode_list_u64(s.drop_last()) + u64_bytes(s.last())
    }
}

/// A list's bytes take eight bytes per value.
pub proof fn lemma_encode_list_u64_len(s: Seq<u64>)
    ensures
        encode_list_u64(s).len() == 8 * s.len(),
    decreases s.len(),
{
    if s.len() > 0 {
        lemma_encode_list_u64_len(s.drop_last());
    }
}

/// The bytes of the `k`-th value sit at offset `8 * k` of the list's
/// bytes.
pub proof fn lemma_encode_list_u64_index(s: Seq<u64>, k: int)
    requires
        0 <= k < s.len(),
    ensures
        encode_list_u64(s).subrange(8 * k, 8 * k + 8) =~= u64_bytes(s[k]),
    decreases s.len(),
{
    lemma_encode_list_u64_len(s);
    lemma_encode_list_u64_len(s.drop_last());
    if k == s.len() - 1 {
        assert(encode_list_u64(s).subrange(8 * k, 8 * k + 8) =~= u64_bytes(s.last()));
    } else {
        lemma_encode_list_u64_index(s.drop_last(), k);
        assert(encode_list_u64(s).subrange(8 * k, 8 * k + 8) =~= encode_list_u64(
            s.drop_last(),
        ).subrange(8 * k, 8 * k + 8));
    }
}

/// Appending one value appends its eight bytes.
pub proof fn lemma_encode_list_u64_snoc(s: Seq<u64>, j: int)
    requires
        0 <= j < s.len(),
    ensures
        encode_list_u64(s.take(j + 1)) == encode_list_u64(s.take(j)) + u64_bytes(s[j]),
{
    assert(s.take(j + 1).drop_last() =~= s.take(j));
    assert(s.take(j + 1).last() == s[j]);
}

/// The signed ids as their 64-bit forms.
pub open spec fn locations_as_u64(s: Seq<i64>) -> Seq<u64> {
    s.map_values(|x: i64| x as u64)
}

/// The bytes of the seed: a presence tag, then for a recorded seed its
/// UTF-8 length and bytes.
pub open spec fn encode_seed(seed: Option<Seq<char>>) -> Seq<u8> {
    match seed {
        None => seq![0u8],
        Some(s) => seq![1u8] + u64_bytes(encode_utf8(s).len() as u64) + encode_utf8(s),
    }
}

/// The payload: both index lists with their counts, then the seed.
pub open spec fn payload_bytes(v: SaveDataView) -> Seq<u8> {
    u64_bytes(v.items_granted.len() as u64) + encode_list_u64(v.items_granted) + u64_bytes(
        v.locations.len() as u64,
    ) + encode_list_u64(locations_as_u64(v.locations)) + encode_seed(v.seed)
}

/// The full encoding: the payload behind its length header.
pub open spec fn encode_bytes(v: SaveDataView) -> Seq<u8> {
    u64_bytes(payload_bytes(v).len() as u64) + payload_bytes(v)
}

/// Appends the eight little-endian bytes of `x`.
fn push_u64(out: &mut Vec<u8>, x: u64)
    ensures
        final(out)@ == old(out)@ + u64_bytes(x),
{
    out.push(x as u8);
    out.push((x >> 8) as u8);
    out.push((x >> 16) as u8);
    out.push((x >> 24) as u8);
    out.push((x >> 32) as u8);
    out.push((x >> 40) as u8);
    out.push((x >> 48) as u8);
    out.push((x >> 56) as u8);
    proof {
        assert(out@ =~= old(out)@ + u64_bytes(x));
    }
}

/// Reads the eight little-endian bytes at `pos`.
fn read_u64(bytes: &Vec<u8>, pos: usize) -> (r: u64)
    requires
        pos + 8 <= bytes@.len(),
    ensures
        r == u64_of_bytes(bytes@.subrange(pos as int, pos + 8)),
{
    let n = bytes.len();
    let b = bytes[pos] as u64 | ((bytes[pos + 1] as u64) << 8) | ((bytes[pos + 2] as u64) << 16) | (
    (bytes[pos + 3] as u64) << 24) | ((bytes[pos + 4] as u64) << 32) | ((bytes[pos + 5] as u64)
        << 40) | ((bytes[pos + 6] as u64) << 48) | ((bytes[pos + 7] as u64) << 56);
    proof {
        let s = bytes@.subrange(pos as int, pos + 8);
        assert(s[0] == bytes@[pos as int]);
        assert(s[1] == bytes@[pos + 1]);
        assert(s[2] == bytes@[pos + 2]);
        assert(s[3] == bytes@[pos + 3]);
        assert(s[4] == bytes@[pos + 4]);
        assert(s[5] == bytes@[pos + 5]);
        assert(s[6] == bytes@[pos + 6]);
        assert(s[7] == bytes@[pos + 7]);
    }
    b
}

/// Relies on `String::from_utf8`: it succeeds exactly on valid UTF-8,
/// returning the string those bytes spell.
#[verifier::external_body]
fn bytes_to_string(v: Vec<u8>) -> (r: Option<String>)
    ensures
        match r {
            Some(s) => valid_utf8(v@) && s@ == decode_utf8(v@),
            None => !valid_utf8(v@),
        },
{
    String::from_utf8(v).ok()
}

/// Encodes a record into its canonical byte form.
pub fn encode_save_data(data: &SaveData) -> (r: Vec<u8>)
    ensures
        r@ == encode_bytes(data@),
{
    let mut payload: Vec<u8> = Vec::new();
    push_u64(&mut payload, data.items_granted.len() as u64);
    let mut i: usize = 0;
    while i < data.items_granted.len()
        invariant
            i <= data.items_granted@.len(),
            payload@ == u64_bytes(data.items_granted@.len() as u64) + encode_list_u64(
                data.items_granted@.take(i as int),
            ),
        decreases data.items_granted@.len() - i,
    {
        push_u64(&mut payload, data.items_granted[i]);
        proof {
            lemma_encode_list_u64_snoc(data.items_granted@, i as int);
            assert(payload@ =~= u64_bytes(data.items_granted@.len() as u64) + encode_list_u64(
                data.items_granted@.take(i + 1),
            ));
        }
        i += 1;
    }
    proof {
        assert(data.items_granted@.take(i as int) =~= data.items_granted@);
    }

    push_u64(&mut payload, data.locations.len() as u64);
    let ghost locs = locations_as_u64(data.locations@);
    let ghost head = u64_bytes(data.items_granted@.len() as u64) + encode_list_u64(
        data.items_granted@,
    ) + u64_bytes(data.locations@.len() as u64);
    proof {
        assert(payload@ =~= head + encode_list_u64(locs.take(0)));
    }
    let mut j: usize = 0;
    while j < data.locations.len()
        invariant
            j <= data.locations@.len(),
            locs == locations_as_u64(data.locations@),
            head == u64_bytes(data.items_granted@.len() as u64) + encode_list_u64(
                data.items_granted@,
            ) + u64_bytes(data.locations@.len() as u64),
            payload@ == head + encode_list_u64(locs.take(j as int)),
        decreases data.locations@.len() - j,
    {
        push_u64(&mut payload, data.locations[j] as u64);
        proof {
            lemma_encode_list_u64_snoc(locs, j as int);
            assert(payload@ =~= head + encode_list_u64(locs.take(j + 1)));
        }
        j += 1;
    }
    proof {
        assert(locs.take(j as int) =~= locs);
    }

    match &data.seed {
        None => {
            payload.push(0u8);
        },
        Some(seed) => {
            payload.push(1u8);
            let seed_bytes = seed.as_str().as_bytes();
            push_u64(&mut payload, seed_bytes.len() as u64);
            let ghost before = payload@;
            let mut k: usize = 0;
            while k < seed_bytes.len()
                invariant
                    k <= seed_bytes@.len(),
                    payload@ == before + seed_bytes@.take(k as int),
                decreases seed_bytes@.len() - k,
            {
                payload.push(seed_bytes[k]);
                proof {
                    assert(payload@ =~= before + seed_bytes@.take(k + 1));
                }
                k += 1;
            }
            proof {
                assert(seed_bytes@.take(k as int) =~= seed_bytes@);
            }
        },
    }
    proof {
        assert(payload@ =~= payload_bytes(data@));
    }

    let mut out: Vec<u8> = Vec::new();
    push_u64(&mut out, payload.len() as u64);
    let ghost header = out@;
    let mut m: usize = 0;
    while m < payload.len()
        invariant
            m <= payload@.len(),
            out@ == header + payload@.take(m as int),
        decreases payload@.len() - m,
    {
        out.push(payload[m]);
        proof {
            assert(out@ =~= header + payload@.take(m + 1));
        }
        m += 1;
    }
    proof {
        assert(payload@.take(m as int) =~= payload@);
        assert(out@ =~= encode_bytes(data@));
    }
    out
}


/// Reassembling eight bytes and splitting the value gives the bytes
/// back; a value's byte form is the only one that reads as it.
pub proof fn lemma_u64_of_bytes_roundtrip(b: Seq<u8>)
    requires
        b.len() == 8,
    ensures
        u64_bytes(u64_of_bytes(b)) =~= b,
{
    let b0 = b[0];
    let b1 = b[1];
    let b2 = b[2];
    let b3 = b[3];
    let b4 = b[4];
    let b5 = b[5];
    let b6 = b[6];
    let b7 = b[7];
    let x = u64_of_bytes(b);
    assert(x as u8 == b0 && (x >> 8) as u8 == b1 && (x >> 16) as u8 == b2 && (x >> 24) as u8 == b3
        && (x >> 32) as u8 == b4 && (x >> 40) as u8 == b5 && (x >> 48) as u8 == b6 && (x >> 56)
        as u8 == b7) by (bit_vector)
        requires
            x == ((b0 as u64) | ((b1 as u64) << 8) | ((b2 as u64) << 16) | ((b3 as u64) << 24) | ((
            b4 as u64) << 32) | ((b5 as u64) << 40) | ((b6 as u64) << 48) | ((b7 as u64) << 56)),
    ;
}

/// The two halves of a concatenation keep their bytes.
pub proof fn lemma_concat_sub_left(a: Seq<u8>, b: Seq<u8>, i: int, j: int)
    requires
        0 <= i <= j <= a.len(),
    ensures
        (a + b).subrange(i, j) =~= a.subrange(i, j),
{
}

/// The right half of a concatenation keeps its bytes, shifted.
pub proof fn lemma_concat_sub_right(a: Seq<u8>, b: Seq<u8>, i: int, j: int)
    requires
        a.len() <= i <= j <= a.len() + b.len(),
    ensures
        (a + b).subrange(i, j) =~= b.subrange(i - a.len(), j - a.len()),
{
}

/// Where each region of a well-formed encoding sits and what it holds.
#[verifier::rlimit(100)]
pub proof fn lemma_encoding_structure(v: SaveDataView, bytes: Seq<u8>)
    requires
        bytes == encode_bytes(v),
        bytes.len() < 0x1_0000_0000_0000_0000,
    ensures
        bytes.len() == 8 + payload_bytes(v).len(),
        bytes.len() >= 25,
        8 * v.items_granted.len() <= bytes.len() - 25,
        bytes.subrange(0, 8) =~= u64_bytes((bytes.len() - 8) as u64),
        bytes.subrange(8, 16) =~= u64_bytes(v.items_granted.len() as u64),
        forall|k: int|
            0 <= k < v.items_granted.len() ==> bytes.subrange(16 + 8 * k, 16 + 8 * k + 8)
                =~= u64_bytes(#[trigger] v.items_granted[k]),
        ({
            let p2 = 16 + 8 * (v.items_granted.len() as int);
            &&& 8 * v.locations.len() <= bytes.len() - p2 - 9
            &&& bytes.subrange(p2, p2 + 8) =~= u64_bytes(v.locations.len() as u64)
            &&& forall|k: int|
                0 <= k < v.locations.len() ==> bytes.subrange(p2 + 8 + 8 * k, p2 + 8 + 8 * k + 8)
                    =~= u64_bytes((#[trigger] v.locations[k]) as u64)
            &&& ({
                let p3 = p2 + 8 + 8 * (v.locations.len() as int);
                &&& (v.seed is None ==> bytes[p3] == 0u8 && bytes.len() == p3 + 1)
                &&& (v.seed matches Some(sv) ==> bytes[p3] == 1u8 && bytes.len() == p3 + 9
                    + encode_utf8(sv).len() && bytes.subrange(p3 + 1, p3 + 9) =~= u64_bytes(
                    encode_utf8(sv).len() as u64,
                ) && bytes.subrange(p3 + 9, bytes.len() as int) =~= encode_utf8(sv))
            })
        }),
{
    let g = v.items_granted;
    let l = v.locations;
    let a1 = u64_bytes(g.len() as u64);
    let a2 = encode_list_u64(g);
    let a3 = u64_bytes(l.len() as u64);
    let a4 = encode_list_u64(locations_as_u64(l));
    let a5 = encode_seed(v.seed);
    let q2 = a1 + a2;
    let q3 = q2 + a3;
    let q4 = q3 + a4;
    let payload = payload_bytes(v);
    let h = u64_bytes(payload.len() as u64);
    lemma_encode_list_u64_len(g);
    lemma_encode_list_u64_len(locations_as_u64(l));
    assert(payload == q4 + a5);
    assert(a5.len() >= 1);
    assert(payload.len() == 16 + 8 * g.len() + 8 * l.len() + a5.len());
    assert(bytes.len() == 8 + payload.len());
    let p2 = 16 + 8 * (g.len() as int);
    let p3 = p2 + 8 + 8 * (l.len() as int);

    lemma_concat_sub_left(h, payload, 0, 8);
    assert(h.subrange(0, 8) =~= h);
    assert(payload.len() as u64 == (bytes.len() - 8) as u64);

    lemma_concat_sub_right(h, payload, 8, 16);
    lemma_concat_sub_left(q4, a5, 0, 8);
    lemma_concat_sub_left(q3, a4, 0, 8);
    lemma_concat_sub_left(q2, a3, 0, 8);
    lemma_concat_sub_left(a1, a2, 0, 8);
    assert(a1.subrange(0, 8) =~= a1);
    assert(bytes.subrange(8, 16) =~= u64_bytes(g.len() as u64));

    assert forall|k: int| 0 <= k < g.len() implies bytes.subrange(16 + 8 * k, 16 + 8 * k + 8)
        =~= u64_bytes(#[trigger] g[k]) by {
        lemma_encode_list_u64_index(g, k);
        lemma_concat_sub_right(h, payload, 16 + 8 * k, 16 + 8 * k + 8);
        lemma_concat_sub_left(q4, a5, 8 + 8 * k, 8 + 8 * k + 8);
        lemma_concat_sub_left(q3, a4, 8 + 8 * k, 8 + 8 * k + 8);
        lemma_concat_sub_left(q2, a3, 8 + 8 * k, 8 + 8 * k + 8);
        lemma_concat_sub_right(a1, a2, 8 + 8 * k, 8 + 8 * k + 8);
    }

    lemma_concat_sub_right(h, payload, p2, p2 + 8);
    lemma_concat_sub_left(q4, a5, p2 - 8, p2);
    lemma_concat_sub_left(q3, a4, p2 - 8, p2);
    lemma_concat_sub_right(q2, a3, p2 - 8, p2);
    assert(a3.subrange(0, 8) =~= a3);
    assert(bytes.subrange(p2, p2 + 8) =~= u64_bytes(l.len() as u64));

    assert forall|k: int|
        0 <= k < l.len() implies bytes.subrange(p2 + 8 + 8 * k, p2 + 8 + 8 * k + 8) =~= u64_bytes(
        (#[trigger] l[k]) as u64,
    ) by {
        lemma_encode_list_u64_index(locations_as_u64(l), k);
        assert(locations_as_u64(l)[k] == l[k] as u64);
        lemma_concat_sub_right(h, payload, p2 + 8 + 8 * k, p2 + 8 + 8 * k + 8);
        lemma_concat_sub_left(q4, a5, p2 + 8 * k, p2 + 8 * k + 8);
        lemma_concat_sub_right(q3, a4, p2 + 8 * k, p2 + 8 * k + 8);
    }

    lemma_concat_sub_right(h, payload, p3, bytes.len() as int);
    lemma_concat_sub_right(q4, a5, p3 - 8, payload.len() as int);
    assert(bytes.subrange(p3, bytes.len() as int) =~= a5);
    let tail = bytes.subrange(p3, bytes.len() as int);
    match v.seed {
        None => {
            assert(bytes[p3] == tail[0]);
        },
        Some(sv) => {
            let sb = encode_utf8(sv);
            assert(a5 == seq![1u8] + u64_bytes(sb.len() as u64) + sb);
            assert(bytes[p3] == tail[0]);
            assert(tail[0] == a5[0]);
            assert(a5[0] == 1u8);
            assert(bytes.subrange(p3 + 1, p3 + 9) =~= a5.subrange(1, 9));
            lemma_concat_sub_left(seq![1u8] + u64_bytes(sb.len() as u64), sb, 1, 9);
            lemma_concat_sub_right(seq![1u8], u64_bytes(sb.len() as u64), 1, 9);
            assert(u64_bytes(sb.len() as u64).subrange(0, 8) =~= u64_bytes(sb.len() as u64));
            assert(a5.subrange(1, 9) =~= u64_bytes(sb.len() as u64));
            assert(bytes.subrange(p3 + 9, bytes.len() as int) =~= a5.subrange(9, a5.len() as int));
            lemma_concat_sub_right(seq![1u8] + u64_bytes(sb.len() as u64), sb, 9, a5.len() as int);
            assert(sb.subrange(0, sb.len() as int) =~= sb);
            assert(a5.subrange(9, a5.len() as int) =~= sb);
        },
    }
}


/// Decodes a buffer, accepting exactly the canonical encodings of
/// well-formed records: any accepted buffer is, byte for byte, the
/// encoding of the returned record, and a rejected buffer is no
/// well-formed record's encoding.
#[verifier::rlimit(100)]
pub fn decode_save_data(bytes: &Vec<u8>) -> (r: Option<SaveData>)
    ensures
        match r {
            Some(data) => data.wf() && bytes@ == encode_bytes(data@),
            None => forall|v: SaveDataView| v.wf() ==> bytes@ != encode_bytes(v),
        },
{
    let n = bytes.len();
    proof {
        assert(bytes@.len() < 0x1_0000_0000_0000_0000);
    }
    if n < 25 {
        proof {
            assert forall|v: SaveDataView| v.wf() implies bytes@ != encode_bytes(v) by {
                if bytes@ == encode_bytes(v) {
                    lemma_encoding_structure(v, bytes@);
                }
            }
        }
        return None;
    }
    let total = read_u64(bytes, 0);
    if total != (n - 8) as u64 {
        proof {
            assert forall|v: SaveDataView| v.wf() implies bytes@ != encode_bytes(v) by {
                if bytes@ == encode_bytes(v) {
                    lemma_encoding_structure(v, bytes@);
                    lemma_u64_bytes_roundtrip((n - 8) as u64);
                }
            }
        }
        return None;
    }
    let count1 = read_u64(bytes, 8);
    if count1 > ((n - 25) / 8) as u64 {
        proof {
            assert forall|v: SaveDataView| v.wf() implies bytes@ != encode_bytes(v) by {
                if bytes@ == encode_bytes(v) {
                    lemma_encoding_structure(v, bytes@);
                    lemma_u64_bytes_roundtrip(v.items_granted.len() as u64);
                    assert(count1 == v.items_granted.len() as u64);
                    assert(8 * v.items_granted.len() <= n - 25);
                    assert(v.items_granted.len() <= (n - 25) / 8);
                }
            }
        }
        return None;
    }
    let c1 = count1 as usize;
    proof {
        assert(8 * c1 <= n - 25);
    }

    let mut granted: Vec<u64> = Vec::new();
    let mut i: usize = 0;
    while i < c1
        invariant
            n == bytes@.len(),
            25 <= n < 0x1_0000_0000_0000_0000,
            8 * c1 <= n - 25,
            c1 == count1,
            total == (n - 8) as u64,
            total == u64_of_bytes(bytes@.subrange(0, 8)),
            count1 == u64_of_bytes(bytes@.subrange(8, 16)),
            i <= c1,
            granted@.len() == i,
            crate::save_data::strictly_increasing_u64(granted@),
            forall|k: int|
                0 <= k < i ==> bytes@.subrange(16 + 8 * k, 16 + 8 * k + 8) =~= u64_bytes(
                    #[trigger] granted@[k],
                ),
        decreases c1 - i,
    {
        let value = read_u64(bytes, 16 + 8 * i);
        if i > 0 && granted[i - 1] >= value {
            proof {
                assert forall|v: SaveDataView| v.wf() implies bytes@ != encode_bytes(v) by {
                    if bytes@ == encode_bytes(v) {
                        lemma_encoding_structure(v, bytes@);
                        lemma_u64_bytes_roundtrip(v.items_granted.len() as u64);
                        assert(8 * v.items_granted.len() <= n - 25);
                        assert(v.items_granted.len() == c1);
                        lemma_u64_bytes_roundtrip(v.items_granted[i - 1]);
                        lemma_u64_bytes_roundtrip(v.items_granted[i as int]);
                        lemma_u64_bytes_roundtrip(granted@[i - 1]);
                        assert(u64_of_bytes(bytes@.subrange(16 + 8 * (i - 1), 16 + 8 * (i - 1) + 8))
                            == granted@[i - 1]);
                        assert(v.items_granted[i - 1] == granted@[i - 1]);
                        assert(v.items_granted[i as int] == value);
                        assert(v.items_granted[i - 1] < v.items_granted[i as int]);
                    }
                }
            }
            return None;
        }
        let ghost prev_granted = granted@;
        granted.push(value);
        proof {
            lemma_u64_of_bytes_roundtrip(bytes@.subrange(16 + 8 * (i as int), 16 + 8 * (i as int) + 8));
            assert(bytes@.subrange(16 + 8 * (i as int), 16 + 8 * (i as int) + 8) =~= u64_bytes(value));
            assert forall|p: int, q: int| 0 <= p < q < granted@.len() implies granted@[p]
                < granted@[q] by {
                if q < i {
                    assert(prev_granted[p] < prev_granted[q]);
                } else {
                    assert(granted@[q] == value);
                    if p < i - 1 {
                        assert(prev_granted[p] < prev_granted[i - 1]);
                    }
                }
            }
        }
        i += 1;
    }

    let pos2 = 16 + 8 * c1;
    let count2 = read_u64(bytes, pos2);
    if count2 > ((n - pos2 - 9) / 8) as u64 {
        proof {
            assert forall|v: SaveDataView| v.wf() implies bytes@ != encode_bytes(v) by {
                if bytes@ == encode_bytes(v) {
                    lemma_encoding_structure(v, bytes@);
                    lemma_u64_bytes_roundtrip(v.items_granted.len() as u64);
                    assert(8 * v.items_granted.len() <= n - 25);
                    assert(count1 == v.items_granted.len() as u64);
                    assert(v.items_granted.len() == c1);
                    lemma_u64_bytes_roundtrip(v.locations.len() as u64);
                    assert(count2 == v.locations.len() as u64);
                    assert(8 * v.locations.len() <= n - pos2 - 9);
                    assert(v.locations.len() <= (n - pos2 - 9) / 8);
                }
            }
        }
        return None;
    }
    let c2 = count2 as usize;
    proof {
        assert(8 * c2 <= n - pos2 - 9);
    }

    let mut locations: Vec<i64> = Vec::new();
    let mut j: usize = 0;
    while j < c2
        invariant
            n == bytes@.len(),
            25 <= n < 0x1_0000_0000_0000_0000,
            8 * c1 <= n - 25,
            pos2 == 16 + 8 * c1,
            8 * c2 <= n - pos2 - 9,
            c1 == count1,
            total == (n - 8) as u64,
            total == u64_of_bytes(bytes@.subrange(0, 8)),
            count1 == u64_of_bytes(bytes@.subrange(8, 16)),
            count2 == u64_of_bytes(bytes@.subrange(pos2 as int, pos2 + 8)),
            c2 == count2,
            j <= c2,
            locations@.len() == j,
            crate::save_data::strictly_increasing_i64(locations@),
            forall|k: int|
                0 <= k < j ==> bytes@.subrange(pos2 + 8 + 8 * k, pos2 + 8 + 8 * k + 8)
                    =~= u64_bytes((#[trigger] locations@[k]) as u64),
        decreases c2 - j,
    {
        let raw = read_u64(bytes, pos2 + 8 + 8 * j);
        let value = raw as i64;
        proof {
            lemma_u64_bytes_roundtrip(raw);
            assert((value as u64) == raw) by (bit_vector)
                requires
                    value == raw as i64,
            ;
        }
        if j > 0 && locations[j - 1] >= value {
            proof {
                assert forall|v: SaveDataView| v.wf() implies bytes@ != encode_bytes(v) by {
                    if bytes@ == encode_bytes(v) {
                        lemma_encoding_structure(v, bytes@);
                        lemma_u64_bytes_roundtrip(v.items_granted.len() as u64);
                        assert(8 * v.items_granted.len() <= n - 25);
                        assert(v.items_granted.len() == c1);
                        lemma_u64_bytes_roundtrip(v.locations.len() as u64);
                        assert(8 * v.locations.len() <= n - (16 + 8 * (v.items_granted.len() as int)) - 9);
                        assert(v.locations.len() == c2);
                        lemma_u64_bytes_roundtrip(v.locations[j - 1] as u64);
                        lemma_u64_bytes_roundtrip(v.locations[j as int] as u64);
                        lemma_u64_bytes_roundtrip(locations@[j - 1] as u64);
                        lemma_i64_cast_roundtrip(v.locations[j - 1]);
                        lemma_i64_cast_roundtrip(v.locations[j as int]);
                        lemma_i64_cast_roundtrip(locations@[j - 1]);
                        assert(v.locations[j - 1] as u64 == locations@[j - 1] as u64);
                        assert(v.locations[j - 1] == locations@[j - 1]);
                        assert(v.locations[j as int] as u64 == raw);
                        assert(v.locations[j as int] == value);
                        assert(v.locations[j - 1] < v.locations[j as int]);
                    }
                }
            }
            return None;
        }
        let ghost prev_locations = locations@;
        locations.push(value);
        proof {
            lemma_u64_of_bytes_roundtrip(bytes@.subrange(pos2 + 8 + 8 * (j as int), pos2 + 8 + 8 * (j as int) + 8));
            assert(bytes@.subrange(pos2 + 8 + 8 * (j as int), pos2 + 8 + 8 * (j as int) + 8)
                =~= u64_bytes(value as u64));
            assert forall|p: int, q: int| 0 <= p < q < locations@.len() implies locations@[p]
                < locations@[q] by {
                if q < j {
                    assert(prev_locations[p] < prev_locations[q]);
                } else {
                    assert(locations@[q] == value);
                    if p < j - 1 {
                        assert(prev_locations[p] < prev_locations[j - 1]);
                    }
                }
            }
        }
        j += 1;
    }

    let pos3 = pos2 + 8 + 8 * c2;
    let tag = bytes[pos3];
    if tag == 0 {
        if pos3 + 1 != n {
            proof {
                assert forall|v: SaveDataView| v.wf() implies bytes@ != encode_bytes(v) by {
                    if bytes@ == encode_bytes(v) {
                        lemma_encoding_structure(v, bytes@);
                        lemma_u64_bytes_roundtrip(v.items_granted.len() as u64);
                        assert(8 * v.items_granted.len() <= n - 25);
                        assert(v.items_granted.len() == c1);
                        lemma_u64_bytes_roundtrip(v.locations.len() as u64);
                        assert(8 * v.locations.len() <= n - (16 + 8 * (v.items_granted.len() as int)) - 9);
                        assert(v.locations.len() == c2);
                        assert(v.seed is None);
                    }
                }
            }
            return None;
        }
        let data = SaveData { items_granted: granted, locations, seed: None };
        proof {
            lemma_decode_sound(
                data@,
                bytes@,
                n as int,
                c1 as int,
                c2 as int,
                total,
                count1,
                count2,
            );
        }
        return Some(data);
    }
    if tag != 1 {
        proof {
            assert forall|v: SaveDataView| v.wf() implies bytes@ != encode_bytes(v) by {
                if bytes@ == encode_bytes(v) {
                    lemma_encoding_structure(v, bytes@);
                    lemma_u64_bytes_roundtrip(v.items_granted.len() as u64);
                    assert(8 * v.items_granted.len() <= n - 25);
                    assert(v.items_granted.len() == c1);
                    lemma_u64_bytes_roundtrip(v.locations.len() as u64);
                    assert(8 * v.locations.len() <= n - (16 + 8 * (v.items_granted.len() as int)) - 9);
                    assert(v.locations.len() == c2);
                }
            }
        }
        return None;
    }
    if n - pos3 < 9 {
        proof {
            assert forall|v: SaveDataView| v.wf() implies bytes@ != encode_bytes(v) by {
                if bytes@ == encode_bytes(v) {
                    lemma_encoding_structure(v, bytes@);
                    lemma_u64_bytes_roundtrip(v.items_granted.len() as u64);
                    assert(8 * v.items_granted.len() <= n - 25);
                    assert(v.items_granted.len() == c1);
                    lemma_u64_bytes_roundtrip(v.locations.len() as u64);
                    assert(8 * v.locations.len() <= n - (16 + 8 * (v.items_granted.len() as int)) - 9);
                    assert(v.locations.len() == c2);
                }
            }
        }
        return None;
    }
    let slen = read_u64(bytes, pos3 + 1);
    if slen != (n - pos3 - 9) as u64 {
        proof {
            assert forall|v: SaveDataView| v.wf() implies bytes@ != encode_bytes(v) by {
                if bytes@ == encode_bytes(v) {
                    lemma_encoding_structure(v, bytes@);
                    lemma_u64_bytes_roundtrip(v.items_granted.len() as u64);
                    assert(8 * v.items_granted.len() <= n - 25);
                    assert(v.items_granted.len() == c1);
                    lemma_u64_bytes_roundtrip(v.locations.len() as u64);
                    assert(8 * v.locations.len() <= n - (16 + 8 * (v.items_granted.len() as int)) - 9);
                    assert(v.locations.len() == c2);
                    match v.seed {
                        None => {},
                        Some(sv) => {
                            lemma_u64_bytes_roundtrip(encode_utf8(sv).len() as u64);
                        },
                    }
                }
            }
        }
        return None;
    }
    let mut seed_bytes: Vec<u8> = Vec::new();
    let mut k: usize = pos3 + 9;
    while k < n
        invariant
            n == bytes@.len(),
            pos3 + 9 <= k <= n,
            seed_bytes@ == bytes@.subrange(pos3 + 9, k as int),
        decreases n - k,
    {
        seed_bytes.push(bytes[k]);
        proof {
            assert(seed_bytes@ =~= bytes@.subrange(pos3 + 9, k + 1));
        }
        k += 1;
    }
    let ghost seed_region = bytes@.subrange(pos3 + 9, n as int);
    proof {
        assert(seed_bytes@ =~= seed_region);
    }
    match bytes_to_string(seed_bytes) {
        None => {
            proof {
                assert forall|v: SaveDataView| v.wf() implies bytes@ != encode_bytes(v) by {
                    if bytes@ == encode_bytes(v) {
                        lemma_encoding_structure(v, bytes@);
                        lemma_u64_bytes_roundtrip(v.items_granted.len() as u64);
                        assert(8 * v.items_granted.len() <= n - 25);
                        assert(v.items_granted.len() == c1);
                        lemma_u64_bytes_roundtrip(v.locations.len() as u64);
                        assert(8 * v.locations.len() <= n - (16 + 8 * (v.items_granted.len() as int)) - 9);
                        assert(v.locations.len() == c2);
                        match v.seed {
                            None => {},
                            Some(sv) => {
                                vstd::utf8::encode_utf8_valid_utf8(sv);
                                assert(seed_region == encode_utf8(sv));
                                assert(valid_utf8(seed_region));
                            },
                        }
                    }
                }
            }
            None
        },
        Some(seed) => {
            let data = SaveData { items_granted: granted, locations, seed: Some(seed) };
            proof {
                vstd::utf8::decode_utf8_encode_utf8(seed_region);
                lemma_u64_of_bytes_roundtrip(bytes@.subrange(pos3 + 1, pos3 + 9));
                lemma_decode_sound(
                    data@,
                    bytes@,
                    n as int,
                    c1 as int,
                    c2 as int,
                    total,
                    count1,
                    count2,
                );
            }
            Some(data)
        },
    }
}

/// A record assembled from verified regions is encoded by exactly the
/// bytes it was read from.
#[verifier::rlimit(100)]
proof fn lemma_decode_sound(
    m: SaveDataView,
    bytes: Seq<u8>,
    n: int,
    c1: int,
    c2: int,
    total: u64,
    count1: u64,
    count2: u64,
)
    requires
        n == bytes.len(),
        25 <= n < 0x1_0000_0000_0000_0000,
        m.items_granted.len() == c1,
        m.locations.len() == c2,
        8 * c1 <= n - 25,
        8 * c2 <= n - (16 + 8 * c1) - 9,
        total == (n - 8) as u64,
        total == u64_of_bytes(bytes.subrange(0, 8)),
        count1 == c1 as u64,
        count1 == u64_of_bytes(bytes.subrange(8, 16)),
        count2 == c2 as u64,
        count2 == u64_of_bytes(bytes.subrange(16 + 8 * c1, 16 + 8 * c1 + 8)),
        forall|k: int|
            0 <= k < c1 ==> bytes.subrange(16 + 8 * k, 16 + 8 * k + 8) =~= u64_bytes(
                #[trigger] m.items_granted[k],
            ),
        forall|k: int|
            0 <= k < c2 ==> bytes.subrange(16 + 8 * c1 + 8 + 8 * k, 16 + 8 * c1 + 8 + 8 * k + 8)
                =~= u64_bytes((#[trigger] m.locations[k]) as u64),
        ({
            let p3 = 16 + 8 * c1 + 8 + 8 * c2;
            &&& (m.seed is None ==> bytes[p3] == 0u8 && n == p3 + 1)
            &&& (m.seed matches Some(sv) ==> bytes[p3] == 1u8 && p3 + 9 <= n && encode_utf8(sv)
                =~= bytes.subrange(p3 + 9, n) && bytes.subrange(p3 + 1, p3 + 9) =~= u64_bytes(
                (n - p3 - 9) as u64,
            ))
        }),
    ensures
        bytes == encode_bytes(m),
{
    let e = encode_bytes(m);
    lemma_encode_list_u64_len(m.items_granted);
    lemma_encode_list_u64_len(locations_as_u64(m.locations));
    let p3 = 16 + 8 * c1 + 8 * c2 + 8;
    match m.seed {
        None => {
            assert(payload_bytes(m).len() == n - 8);
        },
        Some(sv) => {
            assert(encode_utf8(sv).len() == n - p3 - 9);
            assert(payload_bytes(m).len() == n - 8);
        },
    }
    assert(e.len() == n);
    lemma_encoding_structure(m, e);
    lemma_u64_of_bytes_roundtrip(bytes.subrange(0, 8));
    lemma_u64_of_bytes_roundtrip(bytes.subrange(8, 16));
    lemma_u64_of_bytes_roundtrip(bytes.subrange(16 + 8 * c1, 16 + 8 * c1 + 8));
    assert(bytes.subrange(0, 8) =~= u64_bytes(total));
    assert(bytes.subrange(8, 16) =~= u64_bytes(count1));
    assert(bytes.subrange(16 + 8 * c1, 16 + 8 * c1 + 8) =~= u64_bytes(count2));
    assert forall|ix: int| 0 <= ix < n implies bytes[ix] == e[ix] by {
        if ix < 8 {
            assert(bytes[ix] == bytes.subrange(0, 8)[ix]);
            assert(e[ix] == e.subrange(0, 8)[ix]);
        } else if ix < 16 {
            assert(bytes[ix] == bytes.subrange(8, 16)[ix - 8]);
            assert(e[ix] == e.subrange(8, 16)[ix - 8]);
        } else if ix < 16 + 8 * c1 {
            let k = (ix - 16) / 8;
            let off = (ix - 16) % 8;
            assert(0 <= k < c1 && ix == 16 + 8 * k + off && 0 <= off < 8) by (nonlinear_arith)
                requires
                    k == (ix - 16) / 8,
                    off == (ix - 16) % 8,
                    16 <= ix < 16 + 8 * c1,
            ;
            assert(bytes[ix] == bytes.subrange(16 + 8 * k, 16 + 8 * k + 8)[off]);
            assert(e[ix] == e.subrange(16 + 8 * k, 16 + 8 * k + 8)[off]);
            assert(bytes.subrange(16 + 8 * k, 16 + 8 * k + 8) =~= u64_bytes(m.items_granted[k]));
            assert(e.subrange(16 + 8 * k, 16 + 8 * k + 8) =~= u64_bytes(m.items_granted[k]));
        } else if ix < 16 + 8 * c1 + 8 {
            assert(bytes[ix] == bytes.subrange(16 + 8 * c1, 16 + 8 * c1 + 8)[ix - (16 + 8 * c1)]);
            assert(e[ix] == e.subrange(16 + 8 * c1, 16 + 8 * c1 + 8)[ix - (16 + 8 * c1)]);
        } else if ix < p3 {
            let base = 16 + 8 * c1 + 8;
            let k = (ix - base) / 8;
            let off = (ix - base) % 8;
            assert(0 <= k < c2 && ix == base + 8 * k + off && 0 <= off < 8) by (nonlinear_arith)
                requires
                    k == (ix - base) / 8,
                    off == (ix - base) % 8,
                    base <= ix < base + 8 * c2,
                    p3 == base + 8 * c2,
            ;
            assert(bytes[ix] == bytes.subrange(base + 8 * k, base + 8 * k + 8)[off]);
            assert(e[ix] == e.subrange(base + 8 * k, base + 8 * k + 8)[off]);
            assert(bytes.subrange(base + 8 * k, base + 8 * k + 8) =~= u64_bytes(
                m.locations[k] as u64,
            ));
            assert(e.subrange(base + 8 * k, base + 8 * k + 8) =~= u64_bytes(
                m.locations[k] as u64,
            ));
        } else {
            match m.seed {
                None => {
                    assert(ix == p3);
                },
                Some(sv) => {
                    if ix == p3 {
                    } else if ix < p3 + 9 {
                        assert(bytes[ix] == bytes.subrange(p3 + 1, p3 + 9)[ix - (p3 + 1)]);
                        assert(e[ix] == e.subrange(p3 + 1, p3 + 9)[ix - (p3 + 1)]);
                        assert(bytes.subrange(p3 + 1, p3 + 9) =~= u64_bytes((n - p3 - 9) as u64));
                        assert(e.subrange(p3 + 1, p3 + 9) =~= u64_bytes(
                            encode_utf8(sv).len() as u64,
                        ));
                    } else {
                        assert(bytes[ix] == bytes.subrange(p3 + 9, n)[ix - (p3 + 9)]);
                        assert(e[ix] == e.subrange(p3 + 9, n)[ix - (p3 + 9)]);
                        assert(e.subrange(p3 + 9, n) =~= encode_utf8(sv));
                    }
                },
            }
        }
    }
    assert(bytes =~= e);
}


/// No two well-formed records share an encoding.
pub proof fn lemma_encode_injective(v1: SaveDataView, v2: SaveDataView)
    requires
        v1.wf(),
        v2.wf(),
        encode_bytes(v1) == encode_bytes(v2),
        encode_bytes(v1).len() < 0x1_0000_0000_0000_0000,
    ensures
        v1 == v2,
{
    let bytes = encode_bytes(v1);
    lemma_encoding_structure(v1, bytes);
    lemma_encoding_structure(v2, bytes);
    lemma_u64_bytes_roundtrip(v1.items_granted.len() as u64);
    lemma_u64_bytes_roundtrip(v2.items_granted.len() as u64);
    assert(v1.items_granted.len() == v2.items_granted.len());
    lemma_u64_bytes_roundtrip(v1.locations.len() as u64);
    lemma_u64_bytes_roundtrip(v2.locations.len() as u64);
    assert(v1.locations.len() == v2.locations.len());
    assert forall|k: int| 0 <= k < v1.items_granted.len() implies v1.items_granted[k]
        == v2.items_granted[k] by {
        lemma_u64_bytes_roundtrip(v1.items_granted[k]);
        lemma_u64_bytes_roundtrip(v2.items_granted[k]);
    }
    assert(v1.items_granted =~= v2.items_granted);
    assert forall|k: int| 0 <= k < v1.locations.len() implies v1.locations[k] == v2.locations[k] by {
        lemma_u64_bytes_roundtrip(v1.locations[k] as u64);
        lemma_u64_bytes_roundtrip(v2.locations[k] as u64);
        lemma_i64_cast_roundtrip(v1.locations[k]);
        lemma_i64_cast_roundtrip(v2.locations[k]);
    }
    assert(v1.locations =~= v2.locations);
    let p3 = 16 + 8 * (v1.items_granted.len() as int) + 8 + 8 * (v1.locations.len() as int);
    match v1.seed {
        None => {
            assert(bytes[p3] == 0u8);
            assert(v2.seed is None);
        },
        Some(s1) => {
            assert(bytes[p3] == 1u8);
            assert(v2.seed matches Some(s2));
            let s2 = v2.seed->Some_0;
            assert(encode_utf8(s1) =~= encode_utf8(s2));
            vstd::utf8::encode_utf8_decode_utf8(s1);
            vstd::utf8::encode_utf8_decode_utf8(s2);
            assert(s1 == s2);
        },
    }
    assert(v1 =~~= v2);
}

/// A buffer truncated by one byte from a valid encoding is no
/// well-formed record's encoding: the length header no longer covers
/// the payload. Together with the decoder's contract, loading such a
/// buffer always resets the store to empty rather than crashing.
pub proof fn lemma_truncated_encoding_rejected(v: SaveDataView, w: SaveDataView)
    requires
        v.wf(),
        w.wf(),
        encode_bytes(v).len() < 0x1_0000_0000_0000_0000,
    ensures
        encode_bytes(v).take(encode_bytes(v).len() - 1) != encode_bytes(w),
{
    let e = encode_bytes(v);
    let t = e.take(e.len() - 1);
    lemma_encoding_structure(v, e);
    if t == encode_bytes(w) {
        lemma_encoding_structure(w, t);
        assert(t.subrange(0, 8) =~= e.subrange(0, 8));
        lemma_u64_bytes_roundtrip((e.len() - 8) as u64);
        lemma_u64_bytes_roundtrip((t.len() - 8) as u64);
        assert((e.len() - 8) as u64 == (t.len() - 8) as u64);
        assert(false);
    }
}

} // verus!
