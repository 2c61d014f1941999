use vstd::prelude::*;

verus! {

/// A field of an encoded record: its key and its value.
pub type FieldView = (Seq<char>, Seq<char>);

/// The mathematical value of a wire message.
pub ghost struct MessageView {
    pub source: Seq<char>,
    pub message: Seq<char>,
    pub level: Seq<char>,
    pub diagnostics: Option<Seq<char>>,
}

/// What stopped one conversion-encoding-delivery run.
#[derive(Debug)]
pub enum PipelineError {
    /// The token or a header value holds bytes that an HTTP header cannot carry.
    HeaderConstruction,
    /// The messages could not be framed (a string or the batch is too long).
    Encoding,
    /// The request could not be completed.
    Transport(String),
    /// The endpoint answered with a status outside 2xx.
    DeliveryStatus { status: u16, body: String },
}

/// A wire message of the log path, which may carry rendered diagnostics.
#[derive(Debug)]
pub struct BetterstackMessage {
    pub source: String,
    pub message: String,
    pub level: String,
    pub diagnostics: Option<String>,
}

/// A wire message of the trace path: one per span event.
#[derive(Debug)]
pub struct BetterstackSpan {
    pub source: String,
    pub message: String,
    pub level: String,
}

pub open spec fn option_view(o: Option<String>) -> Option<Seq<char>> {
    match o {
        Some(s) => Some(s@),
        None => None,
    }
}

impl View for BetterstackMessage {
    type V = MessageView;

    open spec fn view(&self) -> MessageView {
        MessageView {
            source: self.source@,
            message: self.message@,
            level: self.level@,
            diagnostics: option_view(self.diagnostics),
        }
    }
}

impl View for BetterstackSpan {
    type V = MessageView;

    open spec fn view(&self) -> MessageView {
        MessageView { source: self.source@, message: self.message@, level: self.level@, diagnostics: None }
    }
}

pub open spec fn source_key() -> Seq<char> {
    seq!['s', 'o', 'u', 'r', 'c', 'e']
}

pub open spec fn message_key() -> Seq<char> {
    seq!['m', 'e', 's', 's', 'a', 'g', 'e']
}

pub open spec fn level_key() -> Seq<char> {
    seq!['l', 'e', 'v', 'e', 'l']
}

pub open spec fn diagnostics_key() -> Seq<char> {
    seq!['d', 'i', 'a', 'g', 'n', 'o', 's', 't', 'i', 'c', 's']
}

/// The fields that a message is encoded with, in order: `source`, `message`,
/// `level`, then `diagnostics` only where it is present.
pub open spec fn record_of(m: MessageView) -> Seq<FieldView> {
    let base = seq![(source_key(), m.source), (message_key(), m.message), (level_key(), m.level)];
    match m.diagnostics {
        Some(d) => base.push((diagnostics_key(), d)),
        None => base,
    }
}

pub open spec fn records_of(ms: Seq<MessageView>) -> Seq<Seq<FieldView>> {
    ms.map_values(|m: MessageView| record_of(m))
}

pub open spec fn messages_view(ms: Seq<BetterstackMessage>) -> Seq<MessageView> {
    ms.map_values(|m: BetterstackMessage| m@)
}

pub open spec fn spans_view(ms: Seq<BetterstackSpan>) -> Seq<MessageView> {
    ms.map_values(|m: BetterstackSpan| m@)
}

} // verus!
