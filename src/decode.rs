//! What the encoder's bytes mean to a MessagePack reader: a decoder over byte
//! sequences, and the proof that it gives back every encodable batch.

use vstd::arithmetic::div_mod::{lemma_div_denominator, lemma_fundamental_div_mod};
use vstd::prelude::*;
use vstd::utf8::{decode_utf8, encode_utf8, encode_utf8_decode_utf8};

use crate::encode::{
    array_header, be16, be32, encodable, encodable_record, encodable_str, encoding,
    fields_encoding, map_header, record_encoding, records_encoding, str_encoding, str_header,
};
use crate::message::{
    diagnostics_key, level_key, message_key, record_of, records_of, source_key, FieldView,
    MessageView,
};

verus! {

pub open spec fn be16_value(b: Seq<u8>) -> nat {
    (b[0] as nat) * 0x100 + (b[1] as nat)
}

pub open spec fn be32_value(b: Seq<u8>) -> nat {
    (b[0] as nat) * 0x1000000 + (b[1] as nat) * 0x10000 + (b[2] as nat) * 0x100 + (b[3] as nat)
}

/// A string header at the front of `b`: the length it announces and its own size.
pub open spec fn parse_str_len(b: Seq<u8>) -> Option<(nat, nat)> {
    if b.len() == 0 {
        None
    } else if 0xa0 <= b[0] < 0xc0 {
        Some(((b[0] - 0xa0) as nat, 1))
    } else if b[0] == 0xd9 && b.len() >= 2 {
        Some((b[1] as nat, 2))
    } else if b[0] == 0xda && b.len() >= 3 {
        Some((be16_value(b.subrange(1, 3)), 3))
    } else if b[0] == 0xdb && b.len() >= 5 {
        Some((be32_value(b.subrange(1, 5)), 5))
    } else {
        None
    }
}

/// A map header at the front of `b`: the entry count and the header's size.
pub open spec fn parse_map_len(b: Seq<u8>) -> Option<(nat, nat)> {
    if b.len() == 0 {
        None
    } else if 0x80 <= b[0] < 0x90 {
        Some(((b[0] - 0x80) as nat, 1))
    } else if b[0] == 0xde && b.len() >= 3 {
        Some((be16_value(b.subrange(1, 3)), 3))
    } else if b[0] == 0xdf && b.len() >= 5 {
        Some((be32_value(b.subrange(1, 5)), 5))
    } else {
        None
    }
}

/// An array header at the front of `b`: the item count and the header's size.
pub open spec fn parse_array_len(b: Seq<u8>) -> Option<(nat, nat)> {
    if b.len() == 0 {
        None
    } else if 0x90 <= b[0] < 0xa0 {
        Some(((b[0] - 0x90) as nat, 1))
    } else if b[0] == 0xdc && b.len() >= 3 {
        Some((be16_value(b.subrange(1, 3)), 3))
    } else if b[0] == 0xdd && b.len() >= 5 {
        Some((be32_value(b.subrange(1, 5)), 5))
    } else {
        None
    }
}

/// A string at the front of `b`, and what follows it.
pub open spec fn parse_str(b: Seq<u8>) -> Option<(Seq<char>, Seq<u8>)> {
    match parse_str_len(b) {
        Some((len, h)) => if h + len <= b.len() {
            Some((decode_utf8(b.subrange(h as int, (h + len) as int)), b.skip((h + len) as int)))
        } else {
            None
        },
        None => None,
    }
}

proof fn lemma_be16(n: nat)
    requires
        n < 0x10000,
    ensures
        be16_value(be16(n)) == n,
{
    lemma_fundamental_div_mod(n as int, 0x100);
    assert(n / 0x100 < 0x100);
}

proof fn lemma_be32(n: nat)
    requires
        n <= u32::MAX,
    ensures
        be32_value(be32(n)) == n,
{
    let a = n / 0x100;
    let b = a / 0x100;
    let c = b / 0x100;
    lemma_fundamental_div_mod(n as int, 0x100);
    lemma_fundamental_div_mod(a as int, 0x100);
    lemma_fundamental_div_mod(b as int, 0x100);
    lemma_div_denominator(n as int, 0x100, 0x100);
    lemma_div_denominator(a as int, 0x100, 0x100);
    lemma_div_denominator(n as int, 0x10000, 0x100);
    assert(n / 0x10000 == b);
    assert(n / 0x1000000 == c);
    assert(c < 0x100);
}

proof fn lemma_parse_str_header(len: nat, rest: Seq<u8>)
    requires
        len <= u32::MAX,
    ensures
        parse_str_len(str_header(len) + rest) == Some((len, str_header(len).len())),
{
    let b = str_header(len) + rest;
    if len < 32 {
    } else if len < 0x100 {
    } else if len < 0x10000 {
        lemma_be16(len);
        assert(b.subrange(1, 3) =~= be16(len));
    } else {
        lemma_be32(len);
        assert(b.subrange(1, 5) =~= be32(len));
    }
}

proof fn lemma_parse_map_header(len: nat, rest: Seq<u8>)
    requires
        len <= u32::MAX,
    ensures
        parse_map_len(map_header(len) + rest) == Some((len, map_header(len).len())),
{
    let b = map_header(len) + rest;
    if len < 16 {
    } else if len < 0x10000 {
        lemma_be16(len);
        assert(b.subrange(1, 3) =~= be16(len));
    } else {
        lemma_be32(len);
        assert(b.subrange(1, 5) =~= be32(len));
    }
}

proof fn lemma_parse_array_header(len: nat, rest: Seq<u8>)
    requires
        len <= u32::MAX,
    ensures
        parse_array_len(array_header(len) + rest) == Some((len, array_header(len).len())),
{
    let b = array_header(len) + rest;
    if len < 16 {
    } else if len < 0x10000 {
        lemma_be16(len);
        assert(b.subrange(1, 3) =~= be16(len));
    } else {
        lemma_be32(len);
        assert(b.subrange(1, 5) =~= be32(len));
    }
}

proof fn lemma_parse_str(s: Seq<char>, rest: Seq<u8>)
    requires
        encodable_str(s),
    ensures
        parse_str(str_encoding(s) + rest) == Some((s, rest)),
{
    let bytes = encode_utf8(s);
    let h = str_header(bytes.len());
    lemma_parse_str_header(bytes.len(), bytes + rest);
    let b = str_encoding(s) + rest;
    assert(b =~= h + (bytes + rest));
    assert(b.subrange(h.len() as int, (h.len() + bytes.len()) as int) =~= bytes);
    assert(b.skip((h.len() + bytes.len()) as int) =~= rest);
    encode_utf8_decode_utf8(s);
}

/// `n` key-value pairs of strings at the front of `b`, and what follows them.
pub open spec fn parse_fields(b: Seq<u8>, n: nat) -> Option<(Seq<FieldView>, Seq<u8>)>
    decreases n,
{
    if n == 0 {
        Some((Seq::empty(), b))
    } else {
        match parse_fields(b, (n - 1) as nat) {
            Some((fs, r1)) => match parse_str(r1) {
                Some((k, r2)) => match parse_str(r2) {
                    Some((v, r3)) => Some((fs.push((k, v)), r3)),
                    None => None,
                },
                None => None,
            },
            None => None,
        }
    }
}

/// A map of strings at the front of `b`, and what follows it.
pub open spec fn parse_map(b: Seq<u8>) -> Option<(Seq<FieldView>, Seq<u8>)> {
    match parse_map_len(b) {
        Some((n, h)) => if h <= b.len() {
            parse_fields(b.skip(h as int), n)
        } else {
            None
        },
        None => None,
    }
}

/// `n` maps at the front of `b`, and what follows them.
pub open spec fn parse_maps(b: Seq<u8>, n: nat) -> Option<(Seq<Seq<FieldView>>, Seq<u8>)>
    decreases n,
{
    if n == 0 {
        Some((Seq::empty(), b))
    } else {
        match parse_maps(b, (n - 1) as nat) {
            Some((rs, r1)) => match parse_map(r1) {
                Some((r, r2)) => Some((rs.push(r), r2)),
                None => None,
            },
            None => None,
        }
    }
}

/// What a MessagePack reader takes `b` for when it expects one array of maps
/// of strings and nothing after it; `None` for any other content.
pub open spec fn decode(b: Seq<u8>) -> Option<Seq<Seq<FieldView>>> {
    match parse_array_len(b) {
        Some((n, h)) => if h <= b.len() {
            match parse_maps(b.skip(h as int), n) {
                Some((rs, rest)) => if rest.len() == 0 {
                    Some(rs)
                } else {
                    None
                },
                None => None,
            }
        } else {
            None
        },
        None => None,
    }
}

proof fn lemma_parse_fields(fs: Seq<FieldView>, rest: Seq<u8>)
    requires
        encodable_record(fs),
    ensures
        parse_fields(fields_encoding(fs) + rest, fs.len()) == Some((fs, rest)),
    decreases fs.len(),
{
    if fs.len() > 0 {
        let init = fs.drop_last();
        let f = fs.last();
        assert(encodable_record(init)) by {
            assert forall|j: int| 0 <= j < init.len() implies encodable_str(#[trigger] init[j].0)
                && encodable_str(init[j].1) by {
                assert(init[j] == fs[j]);
            }
        }
        assert(encodable_str(fs[fs.len() - 1].0) && encodable_str(fs[fs.len() - 1].1));
        let tail = str_encoding(f.0) + (str_encoding(f.1) + rest);
        assert(fields_encoding(fs) + rest =~= fields_encoding(init) + tail);
        lemma_parse_fields(init, tail);
        lemma_parse_str(f.0, str_encoding(f.1) + rest);
        lemma_parse_str(f.1, rest);
        assert(init.push(f) =~= fs);
    }
}

proof fn lemma_parse_map(fs: Seq<FieldView>, rest: Seq<u8>)
    requires
        encodable_record(fs),
        fs.len() <= u32::MAX,
    ensures
        parse_map(record_encoding(fs) + rest) == Some((fs, rest)),
{
    let h = map_header(fs.len());
    lemma_parse_map_header(fs.len(), fields_encoding(fs) + rest);
    assert(record_encoding(fs) + rest =~= h + (fields_encoding(fs) + rest));
    assert((record_encoding(fs) + rest).skip(h.len() as int) =~= fields_encoding(fs) + rest);
    lemma_parse_fields(fs, rest);
}

proof fn lemma_parse_maps(rs: Seq<Seq<FieldView>>, rest: Seq<u8>)
    requires
        forall|i: int| 0 <= i < rs.len() ==> encodable_record(#[trigger] rs[i]) && rs[i].len() <= u32::MAX,
    ensures
        parse_maps(records_encoding(rs) + rest, rs.len()) == Some((rs, rest)),
    decreases rs.len(),
{
    if rs.len() > 0 {
        let init = rs.drop_last();
        let r = rs.last();
        assert(forall|i: int| 0 <= i < init.len() ==> init[i] == rs[i]);
        assert(encodable_record(rs[rs.len() - 1]));
        let tail = record_encoding(r) + rest;
        assert(records_encoding(rs) + rest =~= records_encoding(init) + tail);
        lemma_parse_maps(init, tail);
        lemma_parse_map(r, rest);
        assert(init.push(r) =~= rs);
    }
}

/// Round trip: a MessagePack reader takes the encoding of any encodable batch
/// of messages back to the same records, in the same order, each with the same
/// keys and values; an absent optional field stays absent.
pub proof fn lemma_round_trip(ms: Seq<MessageView>)
    requires
        encodable(records_of(ms)),
    ensures
        decode(encoding(records_of(ms))) == Some(records_of(ms)),
{
    let rs = records_of(ms);
    assert forall|i: int| 0 <= i < rs.len() implies encodable_record(#[trigger] rs[i])
        && rs[i].len() <= u32::MAX by {
        assert(rs[i] == crate::message::record_of(ms[i]));
    }
    let h = array_header(rs.len());
    lemma_parse_array_header(rs.len(), records_encoding(rs));
    assert(encoding(rs).skip(h.len() as int) =~= records_encoding(rs) + Seq::<u8>::empty());
    lemma_parse_maps(rs, Seq::empty());
}

/// Round trip, field by field: a MessagePack reader takes the encoding of any
/// encodable batch back to one record per message, in order. Each record holds
/// `source`, `message` and `level` with the message's values, then a
/// `diagnostics` entry exactly where the message has diagnostics; without them
/// no key of the record is `diagnostics`.
pub proof fn lemma_round_trip_fields(ms: Seq<MessageView>)
    requires
        encodable(records_of(ms)),
    ensures
        decode(encoding(records_of(ms))) matches Some(a) && a.len() == ms.len() && forall|k: int|
            0 <= k < ms.len() ==> {
                let r = #[trigger] a[k];
                &&& r[0] == (source_key(), ms[k].source)
                &&& r[1] == (message_key(), ms[k].message)
                &&& r[2] == (level_key(), ms[k].level)
                &&& (r.len() == 4 <==> ms[k].diagnostics is Some)
                &&& (r.len() == 3 <==> ms[k].diagnostics is None)
                &&& (ms[k].diagnostics matches Some(d) ==> r[3] == (diagnostics_key(), d))
                &&& (ms[k].diagnostics is None ==> forall|j: int|
                    0 <= j < r.len() ==> (#[trigger] r[j]).0 != diagnostics_key())
            },
{
    lemma_round_trip(ms);
    let a = records_of(ms);
    assert forall|k: int| 0 <= k < ms.len() implies {
        let r = #[trigger] a[k];
        &&& r[0] == (source_key(), ms[k].source)
        &&& r[1] == (message_key(), ms[k].message)
        &&& r[2] == (level_key(), ms[k].level)
        &&& (r.len() == 4 <==> ms[k].diagnostics is Some)
        &&& (r.len() == 3 <==> ms[k].diagnostics is None)
        &&& (ms[k].diagnostics matches Some(d) ==> r[3] == (diagnostics_key(), d))
        &&& (ms[k].diagnostics is None ==> forall|j: int|
            0 <= j < r.len() ==> (#[trigger] r[j]).0 != diagnostics_key())
    } by {
        let r = a[k];
        assert(r == record_of(ms[k]));
        if ms[k].diagnostics is None {
            assert forall|j: int| 0 <= j < r.len() implies (#[trigger] r[j]).0 != diagnostics_key() by {
                assert(r[j].0.len() != diagnostics_key().len());
            }
        }
    }
}

} // verus!
