use vstd::prelude::*;
use vstd::string::*;
use vstd::utf8::encode_utf8;

use crate::message::{
    messages_view, record_of, records_of, spans_view, BetterstackMessage, BetterstackSpan,
    FieldView, MessageView, PipelineError, option_view,
};

verus! {

/// Big-endian bytes of a 16-bit length.
pub open spec fn be16(n: nat) -> Seq<u8> {
    seq![(n / 0x100) as u8, (n % 0x100) as u8]
}

/// Big-endian bytes of a 32-bit length.
pub open spec fn be32(n: nat) -> Seq<u8> {
    seq![
        (n / 0x1000000) as u8,
        ((n / 0x10000) % 0x100) as u8,
        ((n / 0x100) % 0x100) as u8,
        (n % 0x100) as u8,
    ]
}

/// MessagePack header of a string of `len` bytes: fixstr, str8, str16 or str32.
pub open spec fn str_header(len: nat) -> Seq<u8> {
    if len < 32 {
        seq![(0xa0 + len) as u8]
    } else if len < 0x100 {
        seq![0xd9u8, len as u8]
    } else if len < 0x10000 {
        seq![0xdau8] + be16(len)
    } else {
        seq![0xdbu8] + be32(len)
    }
}

/// MessagePack header of a map of `len` entries: fixmap, map16 or map32.
pub open spec fn map_header(len: nat) -> Seq<u8> {
    if len < 16 {
        seq![(0x80 + len) as u8]
    } else if len < 0x10000 {
        seq![0xdeu8] + be16(len)
    } else {
        seq![0xdfu8] + be32(len)
    }
}

/// MessagePack header of an array of `len` items: fixarray, array16 or array32.
pub open spec fn array_header(len: nat) -> Seq<u8> {
    if len < 16 {
        seq![(0x90 + len) as u8]
    } else if len < 0x10000 {
        seq![0xdcu8] + be16(len)
    } else {
        seq![0xddu8] + be32(len)
    }
}

/// A string as MessagePack: its header, then its UTF-8 bytes.
pub open spec fn str_encoding(s: Seq<char>) -> Seq<u8> {
    str_header(encode_utf8(s).len()) + encode_utf8(s)
}

/// The key-value pairs of a map, each key followed by its value.
pub open spec fn fields_encoding(fields: Seq<FieldView>) -> Seq<u8>
    decreases fields.len(),
{
    if fields.len() == 0 {
        Seq::empty()
    } else {
        fields_encoding(fields.drop_last()) + str_encoding(fields.last().0) + str_encoding(
            fields.last().1,
        )
    }
}

/// One record as a MessagePack map keyed by field name.
pub open spec fn record_encoding(fields: Seq<FieldView>) -> Seq<u8> {
    map_header(fields.len()) + fields_encoding(fields)
}

pub open spec fn records_encoding(rs: Seq<Seq<FieldView>>) -> Seq<u8>
    decreases rs.len(),
{
    if rs.len() == 0 {
        Seq::empty()
    } else {
        records_encoding(rs.drop_last()) + record_encoding(rs.last())
    }
}

/// A sequence of records as one MessagePack array of maps.
pub open spec fn encoding(rs: Seq<Seq<FieldView>>) -> Seq<u8> {
    array_header(rs.len()) + records_encoding(rs)
}

/// A string fits a MessagePack string header.
pub open spec fn encodable_str(s: Seq<char>) -> bool {
    encode_utf8(s).len() <= u32::MAX
}

pub open spec fn encodable_record(fields: Seq<FieldView>) -> bool {
    forall|j: int|
        0 <= j < fields.len() ==> encodable_str(#[trigger] fields[j].0) && encodable_str(
            fields[j].1,
        )
}

/// Every string fits a string header, and the batch fits an array header.
pub open spec fn encodable(rs: Seq<Seq<FieldView>>) -> bool {
    &&& rs.len() <= u32::MAX
    &&& forall|i: int| 0 <= i < rs.len() ==> encodable_record(#[trigger] rs[i])
}

/// Relies on rmp::encode::write_str: the string header for the byte length, then
/// the bytes. Written into rmp's ByteBuf, whose writes cannot fail.
#[verifier::external_body]
fn write_str(buf: &mut Vec<u8>, s: &str)
    requires
        s.spec_bytes().len() <= u32::MAX,
    ensures
        final(buf)@ == old(buf)@ + str_header(s.spec_bytes().len()) + s.spec_bytes(),
{
    let mut wr = rmp::encode::ByteBuf::from_vec(std::mem::take(buf));
    let _ = rmp::encode::write_str(&mut wr, s);
    *buf = wr.into_vec();
}

/// Relies on rmp::encode::write_map_len: the map header for `len` entries.
/// Written into rmp's ByteBuf, whose writes cannot fail.
#[verifier::external_body]
fn write_map_len(buf: &mut Vec<u8>, len: u32)
    ensures
        final(buf)@ == old(buf)@ + map_header(len as nat),
{
    let mut wr = rmp::encode::ByteBuf::from_vec(std::mem::take(buf));
    let _ = rmp::encode::write_map_len(&mut wr, len);
    *buf = wr.into_vec();
}

/// Relies on rmp::encode::write_array_len: the array header for `len` items.
/// Written into rmp's ByteBuf, whose writes cannot fail.
#[verifier::external_body]
fn write_array_len(buf: &mut Vec<u8>, len: u32)
    ensures
        final(buf)@ == old(buf)@ + array_header(len as nat),
{
    let mut wr = rmp::encode::ByteBuf::from_vec(std::mem::take(buf));
    let _ = rmp::encode::write_array_len(&mut wr, len);
    *buf = wr.into_vec();
}

/// Appends one key and its value; `false`, with nothing written, where either
/// does not fit a string header.
fn write_field(buf: &mut Vec<u8>, key: &str, value: &str) -> (ok: bool)
    ensures
        ok == (encodable_str(key@) && encodable_str(value@)),
        ok ==> final(buf)@ == old(buf)@ + str_encoding(key@) + str_encoding(value@),
        !ok ==> final(buf)@ == old(buf)@,
{
    if key.as_bytes().len() > 0xffff_ffffusize || value.as_bytes().len() > 0xffff_ffffusize {
        return false;
    }
    write_str(buf, key);
    write_str(buf, value);
    true
}

proof fn lemma_fields_push(fields: Seq<FieldView>, f: FieldView)
    ensures
        fields_encoding(fields.push(f)) == fields_encoding(fields) + str_encoding(f.0)
            + str_encoding(f.1),
{
    assert(fields.push(f).drop_last() =~= fields);
}

/// Appends one message as a map keyed by field name; `false` where one of its
/// strings does not fit a string header.
fn write_message_fields(
    buf: &mut Vec<u8>,
    source: &String,
    message: &String,
    level: &String,
    diagnostics: &Option<String>,
) -> (ok: bool)
    ensures
        ({
            let m = MessageView {
                source: source@,
                message: message@,
                level: level@,
                diagnostics: option_view(*diagnostics),
            };
            &&& ok == encodable_record(record_of(m))
            &&& ok ==> final(buf)@ == old(buf)@ + record_encoding(record_of(m))
        }),
{
    let ghost m = MessageView {
        source: source@,
        message: message@,
        level: level@,
        diagnostics: option_view(*diagnostics),
    };
    let ghost fields = record_of(m);
    let ghost f0 = seq![fields[0]];
    let ghost f1 = f0.push(fields[1]);
    let ghost f2 = f1.push(fields[2]);
    proof {
        reveal_strlit("source");
        reveal_strlit("message");
        reveal_strlit("level");
        reveal_strlit("diagnostics");
        assert("source"@ =~= crate::message::source_key());
        assert("message"@ =~= crate::message::message_key());
        assert("level"@ =~= crate::message::level_key());
        assert("diagnostics"@ =~= crate::message::diagnostics_key());
        assert(f0.drop_last() =~= Seq::<FieldView>::empty());
        lemma_fields_push(Seq::empty(), fields[0]);
        assert(Seq::<FieldView>::empty().push(fields[0]) =~= f0);
        lemma_fields_push(f0, fields[1]);
        lemma_fields_push(f1, fields[2]);
    }
    let n: u32 = match diagnostics {
        Some(_) => 4,
        None => 3,
    };
    write_map_len(buf, n);
    let ghost head = buf@;
    if !write_field(buf, "source", source.as_str()) {
        assert(!encodable_str(fields[0].0) || !encodable_str(fields[0].1));
        return false;
    }
    if !write_field(buf, "message", message.as_str()) {
        assert(!encodable_str(fields[1].0) || !encodable_str(fields[1].1));
        return false;
    }
    if !write_field(buf, "level", level.as_str()) {
        assert(!encodable_str(fields[2].0) || !encodable_str(fields[2].1));
        return false;
    }
    assert(buf@ =~= head + fields_encoding(f2));
    match diagnostics {
        Some(d) => {
            if !write_field(buf, "diagnostics", d.as_str()) {
                assert(!encodable_str(fields[3].0) || !encodable_str(fields[3].1));
                return false;
            }
            proof {
                lemma_fields_push(f2, fields[3]);
                assert(f2.push(fields[3]) =~= fields);
            }
            assert(buf@ =~= head + fields_encoding(fields));
            assert forall|j: int| 0 <= j < fields.len() implies encodable_str(#[trigger] fields[j].0)
                && encodable_str(fields[j].1) by {
                if j == 3 {
                } else {
                    assert(fields[j] == f2[j]);
                }
            }
        },
        None => {
            assert(f2 =~= fields);
            assert(encodable_record(fields));
        },
    }
    true
}

/// A value that is sent as one record of a batch.
pub trait WireRecord: View<V = MessageView> {
    /// Appends the record as a map keyed by field name; `false` where one of its
    /// strings does not fit a string header.
    fn write_record(&self, buf: &mut Vec<u8>) -> (ok: bool)
        ensures
            ok == encodable_record(record_of(self@)),
            ok ==> final(buf)@ == old(buf)@ + record_encoding(record_of(self@));
}

impl WireRecord for BetterstackMessage {
    fn write_record(&self, buf: &mut Vec<u8>) -> (ok: bool) {
        write_message_fields(buf, &self.source, &self.message, &self.level, &self.diagnostics)
    }
}

impl WireRecord for BetterstackSpan {
    fn write_record(&self, buf: &mut Vec<u8>) -> (ok: bool) {
        write_message_fields(buf, &self.source, &self.message, &self.level, &None)
    }
}

pub open spec fn batch_records<T: View<V = MessageView>>(items: Seq<T>) -> Seq<Seq<FieldView>> {
    records_of(items.map_values(|m: T| m@))
}

/// Frames a batch as one MessagePack array of maps; `Encoding` exactly where a
/// string or the batch is too long for MessagePack's headers.
fn encode_batch<T: WireRecord>(items: &Vec<T>) -> (r: Result<Vec<u8>, PipelineError>)
    ensures
        r is Ok <==> encodable(batch_records(items@)),
        r matches Ok(b) ==> b@ == encoding(batch_records(items@)),
        r matches Err(e) ==> e is Encoding,
{
    let ghost rs = batch_records(items@);
    if items.len() > 0xffff_ffffusize {
        return Err(PipelineError::Encoding);
    }
    let mut buf: Vec<u8> = Vec::new();
    write_array_len(&mut buf, items.len() as u32);
    let mut i: usize = 0;
    while i < items.len()
        invariant
            i <= items.len(),
            items.len() <= u32::MAX,
            rs.len() == items.len(),
            rs == batch_records(items@),
            buf@ == array_header(items.len() as nat) + records_encoding(rs.take(i as int)),
            forall|k: int| 0 <= k < i ==> encodable_record(#[trigger] rs[k]),
        decreases items.len() - i,
    {
        assert(rs[i as int] == record_of(items@[i as int]@));
        if !items[i].write_record(&mut buf) {
            return Err(PipelineError::Encoding);
        }
        proof {
            assert(rs.take(i + 1).drop_last() =~= rs.take(i as int));
        }
        i += 1;
    }
    assert(rs.take(items.len() as int) =~= rs);
    Ok(buf)
}

/// Frames log messages as one MessagePack array of maps keyed by field name. Fails
/// with `Encoding`, before anything is sent, exactly where a string or the batch
/// is too long for MessagePack's headers.
pub fn encode_messages(messages: &Vec<BetterstackMessage>) -> (r: Result<Vec<u8>, PipelineError>)
    ensures
        r is Ok <==> encodable(records_of(messages_view(messages@))),
        r matches Ok(b) ==> b@ == encoding(records_of(messages_view(messages@))),
        r matches Err(e) ==> e is Encoding,
{
    assert(batch_records(messages@) == records_of(messages_view(messages@)));
    encode_batch(messages)
}

/// Frames span messages as one MessagePack array of maps keyed by field name. Fails
/// with `Encoding`, before anything is sent, exactly where a string or the batch
/// is too long for MessagePack's headers.
pub fn encode_spans(messages: &Vec<BetterstackSpan>) -> (r: Result<Vec<u8>, PipelineError>)
    ensures
        r is Ok <==> encodable(records_of(spans_view(messages@))),
        r matches Ok(b) ==> b@ == encoding(records_of(spans_view(messages@))),
        r matches Err(e) ==> e is Encoding,
{
    assert(batch_records(messages@) == records_of(spans_view(messages@)));
    encode_batch(messages)
}

} // verus!
