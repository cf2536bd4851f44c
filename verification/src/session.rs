//! What a session holds and how it moves on, stated apart from the code that does it.

use crate::error;
use crate::error::{ErrorView, NetworkStep};
use crate::event::EventView;
use crate::json;
use crate::response;
use crate::response::{ResponseView, TokenView};
use crate::text;
use vstd::prelude::*;
use vstd::utf8::*;

verus! {

/// The mark of an endpoint. It is a signal, never part of the transcript.
pub const END_TOKEN: &'static str = "<end>";

/// The mark of a finalization. It is a signal, never part of the transcript.
pub const FINALIZED_TOKEN: &'static str = "<fin>";

/// The request to finalize what was said so far.
pub const FINALIZE_MESSAGE: &'static str = r#"{"type":"finalize"}"#;

/// What a session holds.
pub struct SessionView {
    pub connected: bool,
    pub input_finished: bool,
    pub pending_events: Seq<EventView>,
    pub final_text: Seq<char>,
    pub last_interim: Seq<char>,
    pub emitted_final: bool,
}

/// What the network hands to a session.
pub enum IncomingView {
    Text(Seq<char>),
    Close(Option<(u16, Seq<char>)>),
    Binary,
    Other,
    Failed(Seq<char>),
    Ended,
}

/// How the attempt to open a connection came out.
pub enum OpeningView {
    Open,
    TimedOut,
    Failed(Seq<char>),
}

/// A text message to send, and the step that sending it is.
pub struct OutgoingView {
    pub step: NetworkStep,
    pub text: Seq<char>,
}

/// What comes after the attempt to send one of the messages that end the audio: the empty
/// end-of-audio mark after the request to finalize, nothing after the mark. After a failure
/// nothing more is sent.
pub open spec fn finish_next(sent: NetworkStep, failure: Option<Seq<char>>) -> Result<
    Option<OutgoingView>,
    ErrorView,
> {
    match failure {
        Some(detail) => Err(error::step_error(sent, detail)),
        None => match sent {
            NetworkStep::SendFinalize => Ok(
                Some(OutgoingView { step: NetworkStep::SendEndOfAudio, text: Seq::empty() }),
            ),
            _ => Ok(None),
        },
    }
}

/// What an attempt to send came to: an error of its step if it failed.
pub open spec fn send_result(step: NetworkStep, failure: Option<Seq<char>>) -> Result<
    (),
    ErrorView,
> {
    match failure {
        Some(detail) => Err(error::step_error(step, detail)),
        None => Ok(()),
    }
}

/// What an optional text says.
pub open spec fn text_view(text: Option<String>) -> Option<Seq<char>> {
    match text {
        Some(text) => Some(text@),
        None => None,
    }
}

/// Whether a token's text is a signal.
pub open spec fn control_text(token_text: Seq<char>) -> bool {
    token_text == END_TOKEN@ || token_text == FINALIZED_TOKEN@
}

/// Whether a token is speech: it has text, is no signal and is no translation.
pub open spec fn is_speech(token: TokenView) -> bool {
    &&& token.text.len() > 0
    &&& !control_text(token.text)
    &&& token.translation_status != Some("translation"@)
}

/// The texts of the speech tokens that are final, or of those that are not, one after another.
pub open spec fn spoken(tokens: Seq<TokenView>, is_final: bool) -> Seq<char>
    decreases tokens.len(),
{
    if tokens.len() == 0 {
        Seq::empty()
    } else {
        let before = spoken(tokens.drop_last(), is_final);
        let token = tokens.last();
        if is_speech(token) && token.is_final == is_final {
            before + token.text
        } else {
            before
        }
    }
}

impl SessionView {
    /// A session that nothing has happened in.
    pub open spec fn fresh() -> SessionView {
        SessionView {
            connected: false,
            input_finished: false,
            pending_events: Seq::empty(),
            final_text: Seq::empty(),
            last_interim: Seq::empty(),
            emitted_final: false,
        }
    }

    /// The final text after `tokens`.
    pub open spec fn final_text_after(self, tokens: Seq<TokenView>) -> Seq<char> {
        self.final_text + spoken(tokens, true)
    }

    /// The text to show after `tokens`: the final text, and what may still change.
    pub open spec fn interim_after(self, tokens: Seq<TokenView>) -> Seq<char> {
        self.final_text_after(tokens) + spoken(tokens, false)
    }

    /// Whether the text to show after `tokens` is worth an event.
    pub open spec fn shows_after(self, tokens: Seq<TokenView>) -> bool {
        let interim = self.interim_after(tokens);
        interim.len() > 0 && interim != self.last_interim
    }

    /// The `Final` event, unless there was one.
    pub open spec fn final_events(self) -> Seq<EventView> {
        if self.emitted_final {
            Seq::empty()
        } else {
            seq![EventView::Final(self.final_text)]
        }
    }

    /// The session after its `Final` event.
    pub open spec fn finalized(self) -> SessionView {
        SessionView { emitted_final: true, ..self }
    }

    /// The session after a response.
    pub open spec fn after_response(self, response: ResponseView) -> SessionView {
        match response {
            ResponseView::Failure(_) => self,
            ResponseView::Update { tokens, finished } => SessionView {
                final_text: self.final_text_after(tokens),
                last_interim: if self.shows_after(tokens) {
                    self.interim_after(tokens)
                } else {
                    self.last_interim
                },
                emitted_final: self.emitted_final || finished,
                ..self
            },
        }
    }

    /// The events that a response gives.
    pub open spec fn response_events(self, response: ResponseView) -> Seq<EventView> {
        match response {
            ResponseView::Failure(message) => seq![EventView::Error(message)],
            ResponseView::Update { tokens, finished } => {
                let shown = if self.shows_after(tokens) {
                    seq![EventView::Interim(self.interim_after(tokens))]
                } else {
                    Seq::empty()
                };
                let definite = if spoken(tokens, true).len() > 0 {
                    seq![EventView::Definite(self.final_text_after(tokens))]
                } else {
                    Seq::empty()
                };
                let last = if finished {
                    self.after_tokens(tokens).final_events()
                } else {
                    Seq::empty()
                };
                shown + definite + last
            },
        }
    }

    /// The session after the tokens of a response, before it is known whether they are the last.
    pub open spec fn after_tokens(self, tokens: Seq<TokenView>) -> SessionView {
        self.after_response(ResponseView::Update { tokens, finished: false })
    }

    /// The events that the end of the connection gives: the transcript, unless it was given, and
    /// the end itself.
    pub open spec fn end_events(self, reason: Option<Seq<char>>) -> Seq<EventView> {
        self.final_events().push(EventView::Closed(reason))
    }

    /// The events that something from the network gives, or the error that it is.
    pub open spec fn incoming_events(self, incoming: IncomingView) -> Result<
        Seq<EventView>,
        ErrorView,
    > {
        match incoming {
            IncomingView::Text(message) => match json::json_reading(message) {
                Ok(document) => Ok(self.response_events(response::response_of(document))),
                Err(detail) => Err(ErrorView::Protocol("parse response: "@ + detail)),
            },
            IncomingView::Close(Some((code, reason))) => Ok(
                self.end_events(Some(close_text(code, reason))),
            ),
            IncomingView::Close(None) => Ok(self.end_events(None)),
            IncomingView::Binary => Ok(Seq::empty()),
            IncomingView::Other => Ok(Seq::empty()),
            IncomingView::Failed(detail) => Err(ErrorView::Protocol(detail)),
            IncomingView::Ended => Ok(self.end_events(Some("WebSocket stream ended"@))),
        }
    }

    /// The session after something from the network, its events not queued yet.
    pub open spec fn heard(self, incoming: IncomingView) -> SessionView {
        match incoming {
            IncomingView::Text(message) => match json::json_reading(message) {
                Ok(document) => self.after_response(response::response_of(document)),
                Err(_) => self,
            },
            IncomingView::Close(_) => self.finalized(),
            IncomingView::Ended => self.finalized(),
            _ => self,
        }
    }

    /// The session with more events queued.
    pub open spec fn queued(self, events: Seq<EventView>) -> SessionView {
        SessionView { pending_events: self.pending_events + events, ..self }
    }

    /// The event that is handed out next.
    pub open spec fn next_pending(self) -> Option<EventView> {
        if self.pending_events.len() > 0 {
            Some(self.pending_events[0])
        } else {
            None
        }
    }

    /// The session after its next event was handed out.
    pub open spec fn handed_out(self) -> SessionView {
        if self.pending_events.len() > 0 {
            SessionView {
                pending_events: self.pending_events.subrange(1, self.pending_events.len() as int),
                ..self
            }
        } else {
            self
        }
    }

    /// The session after something from the network, its events queued but none handed out.
    pub open spec fn received(self, incoming: IncomingView) -> SessionView {
        match self.incoming_events(incoming) {
            Ok(events) => self.heard(incoming).queued(events),
            Err(_) => self,
        }
    }

    /// What the caller gets for something from the network.
    pub open spec fn answer(self, incoming: IncomingView) -> Result<Option<EventView>, ErrorView> {
        match self.incoming_events(incoming) {
            Ok(_) => Ok(self.received(incoming).next_pending()),
            Err(error) => Err(error),
        }
    }

    /// The session after something from the network, once the caller has its answer.
    pub open spec fn after_incoming(self, incoming: IncomingView) -> SessionView {
        match self.incoming_events(incoming) {
            Ok(_) => self.received(incoming).handed_out(),
            Err(_) => self,
        }
    }

    /// The first message that ends the audio: the request to finalize, once, on an open
    /// connection.
    pub open spec fn finish_first(self) -> Option<OutgoingView> {
        if self.connected && !self.input_finished {
            Some(OutgoingView { step: NetworkStep::SendFinalize, text: FINALIZE_MESSAGE@ })
        } else {
            None
        }
    }

    /// The session after the end of the audio was announced.
    pub open spec fn input_ended(self) -> SessionView {
        SessionView { input_finished: true, ..self }
    }

    /// The session after the attempt to open its connection.
    pub open spec fn after_opening(self, opening: OpeningView) -> SessionView {
        match opening {
            OpeningView::Open => self.opened(),
            _ => self,
        }
    }

    /// The session after the attempt to send the configuration message, which failed with
    /// `failure` if there is one.
    pub open spec fn after_config(self, failure: Option<Seq<char>>) -> SessionView {
        match failure {
            None => self.configured(),
            Some(_) => self,
        }
    }

    /// The session after its connection was opened.
    pub open spec fn opened(self) -> SessionView {
        SessionView { connected: true, ..self }
    }

    /// The session after it was closed.
    pub open spec fn closed(self) -> SessionView {
        SessionView::fresh()
    }

    /// The session after the configuration message was sent.
    pub open spec fn configured(self) -> SessionView {
        SessionView {
            input_finished: false,
            pending_events: self.pending_events.push(EventView::Connected),
            final_text: Seq::empty(),
            last_interim: Seq::empty(),
            emitted_final: false,
            ..self
        }
    }
}

/// The lower-case hexadecimal digit of `d`.
pub open spec fn hex_digit(d: u8) -> char {
    if d < 10 {
        ('0' as u32 + d) as char
    } else {
        ('a' as u32 + d - 10) as char
    }
}

/// A byte as a byte string writes it: printable ASCII but for the quote and the backslash as
/// itself, the rest escaped.
pub open spec fn escaped_byte(b: u8) -> Seq<char> {
    if b == 10 {
        seq!['\\', 'n']
    } else if b == 13 {
        seq!['\\', 'r']
    } else if b == 9 {
        seq!['\\', 't']
    } else if b == 92 || b == 34 {
        seq!['\\', b as char]
    } else if b == 0 {
        seq!['\\', '0']
    } else if 32 <= b < 127 {
        seq![b as char]
    } else {
        seq!['\\', 'x', hex_digit(b / 16), hex_digit(b % 16)]
    }
}

/// Bytes as a byte string writes them.
pub open spec fn escaped(bytes: Seq<u8>) -> Seq<char>
    decreases bytes.len(),
{
    if bytes.len() == 0 {
        Seq::empty()
    } else {
        escaped(bytes.drop_last()) + escaped_byte(bytes.last())
    }
}

/// How the reason of a close frame is shown: as a byte string of its UTF-8 bytes, under the name
/// of its type.
pub open spec fn shown_reason(reason: Seq<char>) -> Seq<char> {
    "Utf8Bytes(b\""@ + escaped(encode_utf8(reason)) + "\")"@
}

/// The reason of a `Closed` event for a close frame.
pub open spec fn close_text(code: u16, reason: Seq<char>) -> Seq<char> {
    "code="@ + text::decimal_digits(code as nat) + ", reason="@ + shown_reason(reason)
}

} // verus!
