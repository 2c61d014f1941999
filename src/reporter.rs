use vstd::prelude::*;
use vstd::string::*;

use crate::client::{
    authorization_of, get_headers, msgpack_content_type, valid_token, Request,
};
use crate::encode::{encodable, encode_spans, encoding};
use crate::message::{
    level_key, records_of, spans_view, BetterstackSpan, FieldView, MessageView, PipelineError,
};

verus! {

/// One event of a span: its name and its string properties, in order.
pub struct EventRecord {
    pub name: String,
    pub properties: Vec<(String, String)>,
}

/// One completed span: its name and its events, in order.
pub struct SpanRecord {
    pub name: String,
    pub events: Vec<EventRecord>,
}

pub ghost struct EventView {
    pub name: Seq<char>,
    pub properties: Seq<FieldView>,
}

pub ghost struct SpanView {
    pub name: Seq<char>,
    pub events: Seq<EventView>,
}

impl View for EventRecord {
    type V = EventView;

    open spec fn view(&self) -> EventView {
        EventView {
            name: self.name@,
            properties: self.properties@.map_values(|p: (String, String)| (p.0@, p.1@)),
        }
    }
}

impl View for SpanRecord {
    type V = SpanView;

    open spec fn view(&self) -> SpanView {
        SpanView { name: self.name@, events: self.events@.map_values(|e: EventRecord| e@) }
    }
}

pub open spec fn batch_view(spans: Seq<SpanRecord>) -> Seq<SpanView> {
    spans.map_values(|s: SpanRecord| s@)
}

pub open spec fn default_level() -> Seq<char> {
    seq!['I', 'N', 'F', 'O']
}

/// The value of the first property from index `i` on whose key is `level`, or
/// `INFO` where there is none.
pub open spec fn level_from(props: Seq<FieldView>, i: int) -> Seq<char>
    decreases props.len() - i,
{
    if i < 0 || i >= props.len() {
        default_level()
    } else if props[i].0 == level_key() {
        props[i].1
    } else {
        level_from(props, i + 1)
    }
}

/// The level of an event: its first `level` property, else `INFO`.
pub open spec fn resolve_level(props: Seq<FieldView>) -> Seq<char> {
    level_from(props, 0)
}

/// The message that one event of a span becomes.
pub open spec fn event_message(span_name: Seq<char>, e: EventView) -> MessageView {
    MessageView {
        source: span_name,
        message: e.name,
        level: resolve_level(e.properties),
        diagnostics: None,
    }
}

pub open spec fn span_messages(span: SpanView) -> Seq<MessageView> {
    span.events.map_values(|e: EventView| event_message(span.name, e))
}

/// The messages of a batch: one per event, span by span, event by event.
pub open spec fn batch_messages(spans: Seq<SpanView>) -> Seq<MessageView>
    decreases spans.len(),
{
    if spans.len() == 0 {
        Seq::empty()
    } else {
        batch_messages(spans.drop_last()) + span_messages(spans.last())
    }
}

/// The number of events over all spans of a batch.
pub open spec fn event_count(spans: Seq<SpanView>) -> nat
    decreases spans.len(),
{
    if spans.len() == 0 {
        0
    } else {
        event_count(spans.drop_last()) + spans.last().events.len()
    }
}

/// The level of an event: the value of its first `level` property, else `INFO`.
pub fn event_level(event: &EventRecord) -> (r: String)
    ensures
        r@ == resolve_level(event@.properties),
{
    let ghost props = event@.properties;
    let key = String::from_str("level");
    proof {
        reveal_strlit("level");
        assert("level"@ =~= level_key());
    }
    let mut i: usize = 0;
    while i < event.properties.len()
        invariant
            i <= event.properties.len(),
            props == event@.properties,
            key@ == level_key(),
            level_from(props, 0) == level_from(props, i as int),
        decreases event.properties.len() - i,
    {
        let p = &event.properties[i];
        assert(props[i as int] == (p.0@, p.1@));
        if p.0 == key {
            return p.1.clone();
        }
        i += 1;
    }
    proof {
        reveal_strlit("INFO");
        assert("INFO"@ =~= default_level());
    }
    String::from_str("INFO")
}

/// The trace-path adapter: sends each flushed batch of spans to the ingestion
/// endpoint as one request.
#[derive(Debug)]
pub struct BetterstackReporter {
    pub ingest_host: String,
    pub token: String,
}

impl BetterstackReporter {
    pub fn new(ingest_host: String, token: String) -> (r: Self)
        ensures
            r.ingest_host == ingest_host,
            r.token == token,
    {
        BetterstackReporter { ingest_host, token }
    }

    /// Flattens a batch into one message per event, in (span, event) order.
    pub fn convert(&self, spans: &Vec<SpanRecord>) -> (r: Vec<BetterstackSpan>)
        ensures
            spans_view(r@) == batch_messages(batch_view(spans@)),
            r@.len() == event_count(batch_view(spans@)),
    {
        let ghost bs = batch_view(spans@);
        let mut out: Vec<BetterstackSpan> = Vec::new();
        let mut i: usize = 0;
        while i < spans.len()
            invariant
                i <= spans.len(),
                bs == batch_view(spans@),
                spans_view(out@) == batch_messages(bs.take(i as int)),
            decreases spans.len() - i,
        {
            let span = &spans[i];
            let ghost sv = bs[i as int];
            assert(sv == span@);
            let ghost prefix = spans_view(out@);
            let mut j: usize = 0;
            while j < span.events.len()
                invariant
                    j <= span.events.len(),
                    sv == span@,
                    spans_view(out@) == prefix + span_messages(sv).take(j as int),
                decreases span.events.len() - j,
            {
                let event = &span.events[j];
                assert(sv.events[j as int] == event@);
                let m = BetterstackSpan {
                    source: span.name.clone(),
                    message: event.name.clone(),
                    level: event_level(event),
                };
                assert(m@ == event_message(sv.name, sv.events[j as int]));
                assert(span_messages(sv)[j as int] == m@);
                let ghost before = out@;
                out.push(m);
                assert(spans_view(out@) =~= spans_view(before).push(m@));
                assert(span_messages(sv).take(j + 1) =~= span_messages(sv).take(j as int).push(m@));
                assert(spans_view(out@) =~= prefix + span_messages(sv).take(j + 1));
                j += 1;
            }
            proof {
                assert(span_messages(sv).take(span.events.len() as int) =~= span_messages(sv));
                assert(bs.take(i + 1).drop_last() =~= bs.take(i as int));
            }
            i += 1;
        }
        assert(bs.take(spans.len() as int) =~= bs);
        proof {
            lemma_one_message_per_event(bs);
        }
        out
    }

    /// Builds the request for a flushed batch: nothing for an empty batch;
    /// otherwise the batch's messages encoded as one array, then the headers. An
    /// encoding failure comes first, then a header failure.
    pub fn prepare(&self, spans: &Vec<SpanRecord>) -> (r: Result<Option<Request>, PipelineError>)
        ensures
            ({
                let rs = records_of(batch_messages(batch_view(spans@)));
                &&& spans@.len() == 0 ==> (r matches Ok(None))
                &&& spans@.len() > 0 ==> (r is Ok <==> encodable(rs) && valid_token(self.token@))
                &&& spans@.len() > 0 ==> !(r matches Ok(None))
                &&& (r matches Ok(Some(q)) ==> q.url@ == self.ingest_host@ && q.body@ == encoding(rs)
                    && q.headers.authorization@ == authorization_of(self.token@)
                    && q.headers.content_type@ == msgpack_content_type())
                &&& (r matches Err(e) ==> if encodable(rs) {
                    e is HeaderConstruction
                } else {
                    e is Encoding
                })
            }),
    {
        if spans.len() == 0 {
            return Ok(None);
        }
        let messages = self.convert(spans);
        let body = encode_spans(&messages)?;
        let headers = get_headers(self.token.as_str())?;
        Ok(Some(Request { url: self.ingest_host.clone(), headers, body }))
    }
}

/// A flushed batch yields one message per event: as many as its events in all.
pub proof fn lemma_one_message_per_event(spans: Seq<SpanView>)
    ensures
        batch_messages(spans).len() == event_count(spans),
    decreases spans.len(),
{
    if spans.len() > 0 {
        lemma_one_message_per_event(spans.drop_last());
    }
}

} // verus!
