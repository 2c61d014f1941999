use vstd::prelude::*;
use vstd::string::*;

use crate::client::{
    authorization_of, get_headers, msgpack_content_type, valid_token, Request,
};
use crate::encode::{encodable, encode_messages, encoding};
use crate::message::{
    diagnostics_key, level_key, message_key, record_of, source_key, records_of, BetterstackMessage, MessageView,
    PipelineError,
};

verus! {

/// Severity of a log record.
#[derive(Clone, Copy, Debug, PartialEq, Eq)]
pub enum Level {
    Error,
    Warn,
    Info,
    Debug,
    Trace,
}

/// The canonical upper-case name of a severity.
pub open spec fn level_name(level: Level) -> Seq<char> {
    match level {
        Level::Error => seq!['E', 'R', 'R', 'O', 'R'],
        Level::Warn => seq!['W', 'A', 'R', 'N'],
        Level::Info => seq!['I', 'N', 'F', 'O'],
        Level::Debug => seq!['D', 'E', 'B', 'U', 'G'],
        Level::Trace => seq!['T', 'R', 'A', 'C', 'E'],
    }
}

impl Level {
    /// The canonical upper-case name, as the logging framework renders it.
    pub fn as_str(&self) -> (r: &'static str)
        ensures
            r@ == level_name(*self),
    {
        proof {
            reveal_strlit("ERROR");
            reveal_strlit("WARN");
            reveal_strlit("INFO");
            reveal_strlit("DEBUG");
            reveal_strlit("TRACE");
        }
        match self {
            Level::Error => "ERROR",
            Level::Warn => "WARN",
            Level::Info => "INFO",
            Level::Debug => "DEBUG",
            Level::Trace => "TRACE",
        }
    }
}

/// One log call: its severity and its formatted text.
pub struct LogRecord {
    pub level: Level,
    pub message: String,
}

/// The items of a list joined by `, `.
pub open spec fn joined(items: Seq<Seq<char>>) -> Seq<char>
    decreases items.len(),
{
    if items.len() == 0 {
        Seq::empty()
    } else if items.len() == 1 {
        items[0]
    } else {
        joined(items.drop_last()) + seq![',', ' '] + items.last()
    }
}

/// A list rendered as its debug form: `[a, b, c]`, from the debug form of each item.
pub open spec fn debug_list(items: Seq<Seq<char>>) -> Seq<char> {
    seq!['['] + joined(items) + seq![']']
}

pub open spec fn strings_view(items: Seq<String>) -> Seq<Seq<char>> {
    items.map_values(|s: String| s@)
}

/// The message that a log call becomes.
pub open spec fn log_message(source: Seq<char>, record: LogRecord, diagnostics: Seq<Seq<char>>) -> MessageView {
    MessageView {
        source,
        message: record.message@,
        level: level_name(record.level),
        diagnostics: if diagnostics.len() == 0 {
            None
        } else {
            Some(debug_list(diagnostics))
        },
    }
}

/// Renders the debug forms of the diagnostic context as one list.
pub fn render_diagnostics(items: &Vec<String>) -> (r: String)
    ensures
        r@ == debug_list(strings_view(items@)),
{
    let ghost xs = strings_view(items@);
    proof {
        reveal_strlit("[");
        reveal_strlit("]");
        reveal_strlit(", ");
    }
    let mut out = String::from_str("[");
    let mut i: usize = 0;
    while i < items.len()
        invariant
            i <= items.len(),
            xs == strings_view(items@),
            out@ == seq!['['] + joined(xs.take(i as int)),
        decreases items.len() - i,
    {
        if i > 0 {
            out.append(", ");
        }
        out.append(items[i].as_str());
        proof {
            let t = xs.take(i + 1);
            assert(t.drop_last() =~= xs.take(i as int));
            assert(t.last() == items@[i as int]@);
            reveal_strlit(", ");
            assert(", "@ =~= seq![',', ' ']);
            if i == 0 {
                assert(joined(t) == t[0]);
                assert(joined(xs.take(0)) =~= Seq::<char>::empty());
                assert(out@ =~= seq!['['] + joined(t));
            } else {
                assert(out@ =~= seq!['['] + joined(t));
            }
        }
        i += 1;
    }
    out.append("]");
    assert("]"@ =~= seq![']']);
    assert(xs.take(items.len() as int) =~= xs);
    out
}

/// The log-path adapter: sends each log record, as it is emitted, to the
/// ingestion endpoint under the configured source label.
#[derive(Debug)]
pub struct BetterStackAppender {
    pub ingest_host: String,
    pub token: String,
    pub source: String,
}

impl BetterStackAppender {
    pub fn new(ingest_host: String, token: String, source: String) -> (r: Self)
        ensures
            r.ingest_host == ingest_host,
            r.token == token,
            r.source == source,
    {
        BetterStackAppender { ingest_host, token, source }
    }

    /// One log call as one message: the configured source, the record's text and
    /// severity name, and the diagnostics only where there are some.
    pub fn convert_record(&self, record: &LogRecord, diagnostics: &Vec<String>) -> (r:
        BetterstackMessage)
        ensures
            r@ == log_message(self.source@, *record, strings_view(diagnostics@)),
            r.source@ == self.source@,
            r.level@ == level_name(record.level),
            r.diagnostics is None <==> diagnostics@.len() == 0,
    {
        let rendered = if diagnostics.len() == 0 {
            None
        } else {
            Some(render_diagnostics(diagnostics))
        };
        BetterstackMessage {
            source: self.source.clone(),
            message: record.message.clone(),
            level: String::from_str(record.level.as_str()),
            diagnostics: rendered,
        }
    }

    /// Converts and encodes one log call as a one-element array, then builds
    /// the request. An encoding failure comes first, then a header failure.
    pub fn prepare(&self, record: &LogRecord, diagnostics: &Vec<String>) -> (r: Result<
        Request,
        PipelineError,
    >)
        ensures
            ({
                let rs = records_of(
                    seq![log_message(self.source@, *record, strings_view(diagnostics@))],
                );
                &&& r is Ok <==> encodable(rs) && valid_token(self.token@)
                &&& (r matches Ok(q) ==> q.url@ == self.ingest_host@ && q.body@ == encoding(rs)
                    && q.headers.authorization@ == authorization_of(self.token@)
                    && q.headers.content_type@ == msgpack_content_type())
                &&& r matches Err(e) ==> if encodable(rs) {
                    e is HeaderConstruction
                } else {
                    e is Encoding
                }
            }),
    {
        let message = self.convert_record(record, diagnostics);
        let batch = vec![message];
        assert(crate::message::messages_view(batch@) =~= seq![
            log_message(self.source@, *record, strings_view(diagnostics@)),
        ]);
        let body = encode_messages(&batch)?;
        let headers = get_headers(self.token.as_str())?;
        Ok(Request { url: self.ingest_host.clone(), headers, body })
    }
}

/// A log call without diagnostic context is encoded without a `diagnostics`
/// key: its record holds exactly `source`, `message` and `level`, in that order.
pub proof fn lemma_no_diagnostics_key(
    source: Seq<char>,
    record: LogRecord,
    diagnostics: Seq<Seq<char>>,
)
    requires
        diagnostics.len() == 0,
    ensures
        ({
            let fields = record_of(log_message(source, record, diagnostics));
            &&& fields.len() == 3
            &&& fields[0].0 == source_key()
            &&& fields[1].0 == message_key()
            &&& fields[2].0 == level_key()
            &&& forall|j: int| 0 <= j < fields.len() ==> #[trigger] fields[j].0 != diagnostics_key()
        }),
{
    let fields = record_of(log_message(source, record, diagnostics));
    assert forall|j: int| 0 <= j < fields.len() implies #[trigger] fields[j].0 != diagnostics_key() by {
        assert(fields[j].0.len() != diagnostics_key().len());
    }
}

} // verus!
