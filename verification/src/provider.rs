//! The session itself.

use crate::error::{AsrError, ErrorView, NetworkStep};
use crate::event;
use crate::event::{AsrEvent, EventView};
use crate::json;
use crate::json::read_value;
use crate::response;
use crate::response::{read_response, Response, Token};
use crate::session;
use crate::session::{
    IncomingView, OutgoingView, SessionView, END_TOKEN, FINALIZED_TOKEN, FINALIZE_MESSAGE,
};
use crate::text::{decimal, joined, same_text};
use std::collections::VecDeque;
use vstd::prelude::*;
use vstd::slice::slice_to_vec;
use vstd::string::*;

verus! {

/// A recognition session with the Soniox real-time service.
pub struct SonioxAsrProvider {
    /// Whether there is a connection.
    pub connected: bool,
    /// Whether the end of the audio was announced.
    pub input_finished: bool,
    /// Events that were not handed out yet, the oldest first.
    pub pending_events: VecDeque<AsrEvent>,
    /// The texts of all final tokens so far, control tokens left out.
    pub final_text: String,
    /// The text of the last `Interim` event.
    pub last_interim: String,
    /// Whether the `Final` event of this connection was made.
    pub emitted_final: bool,
}

impl View for SonioxAsrProvider {
    type V = SessionView;

    open spec fn view(&self) -> SessionView {
        SessionView {
            connected: self.connected,
            input_finished: self.input_finished,
            pending_events: event::event_views(self.pending_events@),
            final_text: self.final_text@,
            last_interim: self.last_interim@,
            emitted_final: self.emitted_final,
        }
    }
}

/// A close frame.
#[derive(Debug, PartialEq, Eq)]
pub struct CloseFrame {
    pub code: u16,
    pub reason: String,
}

/// What the network hands to a session.
#[derive(Debug, PartialEq, Eq)]
pub enum Incoming {
    /// A text frame.
    Text(String),
    /// A close frame, with a code and a reason if it carries them.
    Close(Option<CloseFrame>),
    /// A binary frame.
    Binary,
    /// Any other frame.
    Other,
    /// The connection failed, with a message.
    Failed(String),
    /// The connection has no more frames.
    Ended,
}

impl View for Incoming {
    type V = IncomingView;

    open spec fn view(&self) -> IncomingView {
        match self {
            Incoming::Text(message) => IncomingView::Text(message@),
            Incoming::Close(Some(frame)) => IncomingView::Close(Some((frame.code, frame.reason@))),
            Incoming::Close(None) => IncomingView::Close(None),
            Incoming::Binary => IncomingView::Binary,
            Incoming::Other => IncomingView::Other,
            Incoming::Failed(message) => IncomingView::Failed(message@),
            Incoming::Ended => IncomingView::Ended,
        }
    }
}

/// A text message to send, and the step that sending it is.
#[derive(Debug, PartialEq, Eq)]
pub struct Outgoing {
    pub step: NetworkStep,
    pub text: String,
}

impl View for Outgoing {
    type V = OutgoingView;

    open spec fn view(&self) -> OutgoingView {
        OutgoingView { step: self.step, text: self.text@ }
    }
}

impl SonioxAsrProvider {
    /// A session that nothing has happened in.
    pub fn new() -> (r: SonioxAsrProvider)
        ensures
            r@ == SessionView::fresh(),
    {
        let r = SonioxAsrProvider {
            connected: false,
            input_finished: false,
            pending_events: VecDeque::new(),
            final_text: String::new(),
            last_interim: String::new(),
            emitted_final: false,
        };
        assert(r@.pending_events =~= Seq::<EventView>::empty());
        r
    }

    /// Whether a token's text is a signal: the mark of an endpoint or of a finalization.
    pub fn is_control_token(text: &str) -> (r: bool)
        ensures
            r == session::control_text(text@),
    {
        same_text(text, END_TOKEN) || same_text(text, FINALIZED_TOKEN)
    }

    /// Appends the texts of the final speech tokens to the final text. Gives the texts of the
    /// other speech tokens, and whether anything was appended.
    fn take_tokens(&mut self, tokens: &Vec<Token>) -> (r: (String, bool))
        ensures
            final(self)@ == (SessionView {
                final_text: old(self)@.final_text_after(response::token_views(tokens@)),
                ..old(self)@
            }),
            r.0@ == session::spoken(response::token_views(tokens@), false),
            r.1 == (session::spoken(response::token_views(tokens@), true).len() > 0),
    {
        let mut non_final = String::new();
        let mut added_final = false;
        let ghost views = response::token_views(tokens@);
        let mut i: usize = 0;
        assert(views.take(0) =~= Seq::empty());
        while i < tokens.len()
            invariant
                i <= tokens.len(),
                views == response::token_views(tokens@),
                self@ == (SessionView {
                    final_text: old(self)@.final_text + session::spoken(views.take(i as int), true),
                    ..old(self)@
                }),
                non_final@ == session::spoken(views.take(i as int), false),
                added_final == (session::spoken(views.take(i as int), true).len() > 0),
            decreases tokens.len() - i,
        {
            let token = &tokens[i];
            let translation = match &token.translation_status {
                Some(status) => same_text(status.as_str(), "translation"),
                None => false,
            };
            proof {
                assert(views.take(i + 1).drop_last() =~= views.take(i as int));
                assert(views.take(i + 1).last() == token@);
            }
            if !token.text.as_str().is_empty() && !Self::is_control_token(token.text.as_str())
                && !translation {
                if token.is_final {
                    self.final_text.append(token.text.as_str());
                    added_final = true;
                } else {
                    non_final.append(token.text.as_str());
                }
            }
            assert(self@.final_text =~= old(self)@.final_text + session::spoken(
                views.take(i + 1),
                true,
            ));
            i = i + 1;
        }
        assert(views.take(tokens@.len() as int) =~= views);
        (non_final, added_final)
    }

    /// Takes a response into account, and gives its events.
    ///
    /// Final tokens are appended to the final text, the others are shown behind it until the
    /// next response. Control tokens and translations are passed over.
    pub fn apply_response(&mut self, response: &Response) -> (r: Vec<AsrEvent>)
        ensures
            final(self)@ == old(self)@.after_response(response@),
            event::event_views(r@) == old(self)@.response_events(response@),
    {
        let mut events: Vec<AsrEvent> = Vec::new();
        match response {
            Response::Failure(message) => {
                events.push(AsrEvent::Error(message.clone()));
                assert(event::event_views(events@) =~= old(self)@.response_events(response@));
            },
            Response::Update { tokens, finished } => {
                let ghost views = response::token_views(tokens@);
                let (non_final, added_final) = self.take_tokens(tokens);

                let interim = joined(self.final_text.as_str(), non_final.as_str());
                if !interim.as_str().is_empty() && !same_text(
                    interim.as_str(),
                    self.last_interim.as_str(),
                ) {
                    self.last_interim = interim.clone();
                    events.push(AsrEvent::Interim(interim));
                }
                if added_final {
                    events.push(AsrEvent::Definite(self.final_text.clone()));
                }
                assert(self@ == old(self)@.after_tokens(views));
                if *finished {
                    self.push_final_event(&mut events);
                }
                assert(event::event_views(events@) =~= old(self)@.response_events(response@));
            },
        }
        events
    }

    /// Adds the `Final` event to `events`, unless there was one. It comes even where the
    /// transcript is empty.
    pub fn push_final_event(&mut self, events: &mut Vec<AsrEvent>)
        ensures
            final(self)@ == old(self)@.finalized(),
            event::event_views(final(events)@) == event::event_views(old(events)@)
                + old(self)@.final_events(),
    {
        if !self.emitted_final {
            self.emitted_final = true;
            events.push(AsrEvent::Final(self.final_text.clone()));
        }
        assert(event::event_views(events@) =~= event::event_views(old(events)@)
            + old(self)@.final_events());
    }

    /// Queues the `Final` event, unless there was one.
    pub fn queue_final_if_needed(&mut self)
        ensures
            final(self)@ == old(self)@.queued(old(self)@.final_events()).finalized(),
    {
        if !self.emitted_final {
            self.emitted_final = true;
            self.pending_events.push_back(AsrEvent::Final(self.final_text.clone()));
        }
        assert(self@.pending_events =~= old(self)@.pending_events + old(self)@.final_events());
    }

    /// Takes a message of the service into account, and gives its events.
    pub fn parse_response(&mut self, text: &str) -> (r: Result<Vec<AsrEvent>, AsrError>)
        ensures
            match json::json_reading(text@) {
                Ok(document) => {
                    let response = response::response_of(document);
                    &&& final(self)@ == old(self)@.after_response(response)
                    &&& r matches Ok(events)
                    &&& event::event_views(events@) == old(self)@.response_events(response)
                },
                Err(detail) => {
                    &&& final(self)@ == old(self)@
                    &&& r matches Err(error)
                    &&& error@ == ErrorView::Protocol("parse response: "@ + detail)
                },
            },
    {
        match read_value(text) {
            Ok(document) => {
                let response = read_response(&document);
                Ok(self.apply_response(&response))
            },
            Err(detail) => Err(AsrError::Protocol(joined("parse response: ", detail.as_str()))),
        }
    }

    /// The event to hand out without reading from the network, if there is one. Without one, the
    /// network has to be read, which takes a connection.
    pub fn next_event(&mut self) -> (r: Result<Option<AsrEvent>, AsrError>)
        ensures
            final(self)@ == old(self)@.handed_out(),
            match old(self)@.next_pending() {
                Some(event) => r matches Ok(Some(given)) && given@ == event,
                None => if old(self)@.connected {
                    r == Ok::<Option<AsrEvent>, AsrError>(None)
                } else {
                    r matches Err(error) && error@ == ErrorView::Connection("not connected"@)
                },
            },
    {
        match self.hand_out() {
            Some(event) => Ok(Some(event)),
            None => if self.connected {
                Ok(None)
            } else {
                Err(AsrError::Connection("not connected".to_owned()))
            },
        }
    }

    /// Hands out the oldest event.
    fn hand_out(&mut self) -> (r: Option<AsrEvent>)
        ensures
            final(self)@ == old(self)@.handed_out(),
            match r {
                Some(event) => old(self)@.next_pending() == Some(event@),
                None => old(self)@.next_pending() is None,
            },
    {
        let event = self.pending_events.pop_front();
        assert(self@.pending_events =~= old(self)@.handed_out().pending_events);
        event
    }

    /// Queues events.
    fn queue(&mut self, events: Vec<AsrEvent>)
        ensures
            final(self)@ == old(self)@.queued(event::event_views(events@)),
    {
        let mut rest = events;
        assert(event::event_views(self.pending_events@) + event::event_views(rest@)
            =~= old(self)@.queued(event::event_views(events@)).pending_events);
        while rest.len() > 0
            invariant
                self@ == (SessionView { pending_events: self@.pending_events, ..old(self)@ }),
                self@.pending_events + event::event_views(rest@) == old(self)@.queued(
                    event::event_views(events@),
                ).pending_events,
            decreases rest.len(),
        {
            let ghost queue = self@.pending_events;
            let ghost left = event::event_views(rest@);
            let event = rest.remove(0);
            self.pending_events.push_back(event);
            assert(self@.pending_events =~= queue.push(left[0]));
            assert(event::event_views(rest@) =~= left.subrange(1, left.len() as int));
            assert(self@.pending_events + event::event_views(rest@) =~= queue + left);
        }
        assert(self@.pending_events + event::event_views(rest@) =~= self@.pending_events);
    }

    /// Queues the events of the end of the connection.
    fn queue_end(&mut self, reason: Option<String>)
        ensures
            final(self)@ == old(self)@.finalized().queued(
                old(self)@.end_events(
                    match reason {
                        Some(reason) => Some(reason@),
                        None => None,
                    },
                ),
            ),
    {
        let ghost closed = AsrEvent::Closed(reason)@;
        self.queue_final_if_needed();
        let ghost queue = self@.pending_events;
        self.pending_events.push_back(AsrEvent::Closed(reason));
        assert(self@.pending_events =~= queue.push(closed));
        assert(self@.pending_events =~= old(self)@.pending_events + old(self)@.final_events().push(
            closed,
        ));
    }

    /// Takes something from the network into account. Gives the event to hand out, nothing if
    /// the network has to be read again, or the error.
    pub fn on_incoming(&mut self, incoming: Incoming) -> (r: Result<Option<AsrEvent>, AsrError>)
        ensures
            final(self)@ == old(self)@.after_incoming(incoming@),
            match old(self)@.answer(incoming@) {
                Ok(Some(event)) => r matches Ok(Some(given)) && given@ == event,
                Ok(None) => r == Ok::<Option<AsrEvent>, AsrError>(None),
                Err(error) => r matches Err(given) && given@ == error,
            },
    {
        match incoming {
            Incoming::Text(message) => {
                match self.parse_response(message.as_str()) {
                    Ok(events) => {
                        self.queue(events);
                    },
                    Err(error) => {
                        return Err(error);
                    },
                }
            },
            Incoming::Close(Some(frame)) => {
                let reason = close_reason(frame.code, frame.reason.as_str());
                self.queue_end(Some(reason));
            },
            Incoming::Close(None) => {
                self.queue_end(None);
            },
            Incoming::Binary => {},
            Incoming::Other => {},
            Incoming::Failed(message) => {
                return Err(AsrError::Protocol(message));
            },
            Incoming::Ended => {
                self.queue_end(Some("WebSocket stream ended".to_owned()));
            },
        }
        assert(self@.pending_events =~= old(self)@.received(incoming@).pending_events);
        Ok(self.hand_out())
    }
}

impl SonioxAsrProvider {
    /// What to send for a frame of audio: the frame, or nothing if it is empty. To send takes a
    /// connection.
    pub fn send_audio(&self, frame: &[u8]) -> (r: Result<Option<Vec<u8>>, AsrError>)
        ensures
            if frame@.len() == 0 {
                r == Ok::<Option<Vec<u8>>, AsrError>(None)
            } else if self@.connected {
                r matches Ok(Some(data)) && data@ == frame@
            } else {
                r matches Err(error) && error@ == ErrorView::Connection("not connected"@)
            },
    {
        if frame.len() == 0 {
            return Ok(None);
        }
        if self.connected {
            Ok(Some(slice_to_vec(frame)))
        } else {
            Err(AsrError::Connection("not connected".to_owned()))
        }
    }

    /// What the attempt to send a frame of audio came to, which failed with `failure` if there is
    /// one.
    pub fn on_audio_sent(failure: Option<String>) -> (r: Result<(), AsrError>)
        ensures
            match session::send_result(NetworkStep::SendAudio, session::text_view(failure)) {
                Ok(_) => r is Ok,
                Err(error) => r matches Err(given) && given@ == error,
            },
    {
        match failure {
            Some(detail) => Err(AsrError::in_step(NetworkStep::SendAudio, detail.as_str())),
            None => Ok(()),
        }
    }

    /// Ends the audio. Gives the first message to send: the request to finalize, so that what may
    /// still change is settled soon. `finish_next` says how to go on.
    pub fn finish_input(&mut self) -> (r: Option<Outgoing>)
        ensures
            final(self)@ == old(self)@.input_ended(),
            match old(self)@.finish_first() {
                Some(message) => r matches Some(given) && given@ == message,
                None => r is None,
            },
    {
        if self.input_finished {
            return None;
        }
        self.input_finished = true;
        if self.connected {
            Some(Outgoing { step: NetworkStep::SendFinalize, text: FINALIZE_MESSAGE.to_owned() })
        } else {
            None
        }
    }

    /// How to go on after the attempt to send a message that ends the audio, which failed with
    /// `failure` if there is one: with the empty end-of-audio mark after the request to finalize,
    /// with nothing after the mark, and with the error of the step after a failure.
    pub fn finish_next(sent: NetworkStep, failure: Option<String>) -> (r: Result<
        Option<Outgoing>,
        AsrError,
    >)
        ensures
            match session::finish_next(sent, session::text_view(failure)) {
                Ok(Some(message)) => r matches Ok(Some(given)) && given@ == message,
                Ok(None) => r == Ok::<Option<Outgoing>, AsrError>(None),
                Err(error) => r matches Err(given) && given@ == error,
            },
    {
        match failure {
            Some(detail) => Err(AsrError::in_step(sent, detail.as_str())),
            None => match sent {
                NetworkStep::SendFinalize => Ok(
                    Some(Outgoing { step: NetworkStep::SendEndOfAudio, text: String::new() }),
                ),
                _ => Ok(None),
            },
        }
    }

    /// Takes note of the attempt to send the configuration message, which failed with `failure`
    /// if there is one. If it was sent, a new transcript starts.
    pub fn on_config_sent(&mut self, failure: Option<String>) -> (r: Result<(), AsrError>)
        ensures
            final(self)@ == old(self)@.after_config(session::text_view(failure)),
            match session::send_result(NetworkStep::SendConfig, session::text_view(failure)) {
                Ok(_) => r is Ok,
                Err(error) => r matches Err(given) && given@ == error,
            },
    {
        if let Some(detail) = failure {
            return Err(AsrError::in_step(NetworkStep::SendConfig, detail.as_str()));
        }
        self.final_text = String::new();
        self.last_interim = String::new();
        self.input_finished = false;
        self.emitted_final = false;
        self.pending_events.push_back(AsrEvent::Connected);
        assert(self@.pending_events =~= old(self)@.configured().pending_events);
        Ok(())
    }

    /// Forgets everything. Gives whether there is a connection to close.
    pub fn close(&mut self) -> (r: bool)
        ensures
            final(self)@ == old(self)@.closed(),
            r == old(self)@.connected,
    {
        let connected = self.connected;
        self.connected = false;
        self.pending_events.clear();
        self.final_text = String::new();
        self.last_interim = String::new();
        self.input_finished = false;
        self.emitted_final = false;
        assert(self@.pending_events =~= Seq::<EventView>::empty());
        connected
    }
}

impl Default for SonioxAsrProvider {
    /// A session that nothing has happened in.
    fn default() -> (r: SonioxAsrProvider)
        ensures
            r@ == SessionView::fresh(),
    {
        SonioxAsrProvider::new()
    }
}

/// The `Debug` form of `tokio_tungstenite`'s `Utf8Bytes`, the type of a close frame's reason: the
/// name of the type, around a byte string in which the `bytes` crate escapes quotes, backslashes
/// and what is not printable ASCII.
#[verifier::external_body]
fn show_reason(reason: &str) -> (r: String)
    ensures
        r@ == session::shown_reason(reason@),
{
    format!("{:?}", tokio_tungstenite::tungstenite::Utf8Bytes::from(reason))
}

/// The reason of a `Closed` event for a close frame.
pub fn close_reason(code: u16, reason: &str) -> (r: String)
    ensures
        r@ == session::close_text(code, reason@),
{
    let mut text = joined("code=", decimal(code).as_str());
    text.append(", reason=");
    text.append(show_reason(reason).as_str());
    text
}

} // verus!
