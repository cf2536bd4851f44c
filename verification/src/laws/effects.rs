//! Laws of the single operations: what each one owes for what it is given, told by the fields and
//! texts that go in and come out.

use crate::config::{AsrConfig, ConfigView};
use crate::error;
use crate::error::{AsrError, ErrorView, NetworkStep};
use crate::event;
use crate::event::{AsrEvent, EventView};
use crate::handshake;
use crate::handshake::{ConnectPlan, Opening, PlanView};
use crate::json;
use crate::json::JsonView;
use crate::laws;
use crate::message;
use crate::provider::{Incoming, Outgoing, SonioxAsrProvider};
use crate::response;
use crate::response::{Response, ResponseView, Token, TokenView};
use crate::session;
use crate::session::{IncomingView, OpeningView, OutgoingView, SessionView};
use crate::text;
use vstd::prelude::*;
use vstd::utf8::*;

verus! {

// The transcript.

/// Every token is kept that has text, is neither of the two marks and is no translation: its text
/// comes behind the text of the tokens before it, final or not as the token says.
pub proof fn law_speech_is_kept(tokens: Seq<TokenView>, token: TokenView)
    requires
        token.text.len() > 0,
        token.text != "<end>"@,
        token.text != "<fin>"@,
        token.translation_status != Some("translation"@),
    ensures
        session::spoken(tokens.push(token), token.is_final) == session::spoken(
            tokens,
            token.is_final,
        ) + token.text,
        session::spoken(tokens.push(token), !token.is_final) == session::spoken(
            tokens,
            !token.is_final,
        ),
{
    assert(tokens.push(token).drop_last() =~= tokens);
}

/// A token without text, a mark and a translation leave the texts as they are.
pub proof fn law_silence_is_dropped(tokens: Seq<TokenView>, token: TokenView, is_final: bool)
    requires
        token.text.len() == 0 || token.text == "<end>"@ || token.text == "<fin>"@
            || token.translation_status == Some("translation"@),
    ensures
        session::spoken(tokens.push(token), is_final) == session::spoken(tokens, is_final),
{
    assert(tokens.push(token).drop_last() =~= tokens);
}

/// Without tokens there is no text.
pub proof fn law_no_tokens_no_text(is_final: bool)
    ensures
        session::spoken(Seq::empty(), is_final) == Seq::<char>::empty(),
{
}

/// The marks are `<end>` and `<fin>`, and no other text is one.
pub proof fn law_two_marks(token_text: Seq<char>)
    ensures
        session::control_text(token_text) <==> (token_text == "<end>"@ || token_text == "<fin>"@),
{
}

/// A response adds its final speech to the final text, and touches neither the connection, nor
/// the input, nor the queue.
pub proof fn law_update_adds_final_speech(s: SessionView, tokens: Seq<TokenView>, finished: bool)
    ensures
        ({
            let after = s.after_response(ResponseView::Update { tokens, finished });
            &&& after.final_text == s.final_text + session::spoken(tokens, true)
            &&& after.emitted_final == (s.emitted_final || finished)
            &&& after.connected == s.connected
            &&& after.input_finished == s.input_finished
            &&& after.pending_events == s.pending_events
        }),
{
}

/// One more final speech token in a response is one more text at the end of the final text.
pub proof fn law_one_more_token(
    s: SessionView,
    tokens: Seq<TokenView>,
    token: TokenView,
    finished: bool,
)
    requires
        token.text.len() > 0,
        token.text != "<end>"@,
        token.text != "<fin>"@,
        token.translation_status != Some("translation"@),
        token.is_final,
    ensures
        s.after_response(
            ResponseView::Update { tokens: tokens.push(token), finished },
        ).final_text == s.after_response(ResponseView::Update { tokens, finished }).final_text
            + token.text,
{
    law_speech_is_kept(tokens, token);
    assert(s.final_text + (session::spoken(tokens, true) + token.text) =~= (s.final_text
        + session::spoken(tokens, true)) + token.text);
}

// The events of a response.

/// The text on show after a response: the final text, the final speech of the response and behind
/// it the speech that may still change.
pub open spec fn on_show(s: SessionView, tokens: Seq<TokenView>) -> Seq<char> {
    s.final_text + session::spoken(tokens, true) + session::spoken(tokens, false)
}

/// Whenever there is a text on show that is not the one shown last, the first event is the
/// `Interim` of that text, and it is the text shown last from then on.
pub proof fn law_interim_is_due(s: SessionView, tokens: Seq<TokenView>, finished: bool)
    requires
        on_show(s, tokens).len() > 0,
        on_show(s, tokens) != s.last_interim,
    ensures
        ({
            let response = ResponseView::Update { tokens, finished };
            &&& s.response_events(response).len() > 0
            &&& s.response_events(response)[0] == EventView::Interim(on_show(s, tokens))
            &&& s.after_response(response).last_interim == on_show(s, tokens)
        }),
{
}

/// Where the text on show is empty or the one shown last, there is no `Interim`, and the text
/// shown last stays.
pub proof fn law_interim_only_when_due(s: SessionView, tokens: Seq<TokenView>, finished: bool)
    requires
        on_show(s, tokens).len() == 0 || on_show(s, tokens) == s.last_interim,
    ensures
        ({
            let response = ResponseView::Update { tokens, finished };
            &&& s.after_response(response).last_interim == s.last_interim
            &&& forall|i: int|
                0 <= i < s.response_events(response).len() ==> !(#[trigger] s.response_events(
                    response,
                )[i] is Interim)
        }),
{
}

/// Every `Interim`, `Definite` and `Final` of a response carries the text of its kind: what is on
/// show, or the final text.
pub proof fn law_events_carry_their_text(
    s: SessionView,
    tokens: Seq<TokenView>,
    finished: bool,
    i: int,
)
    requires
        0 <= i < s.response_events(ResponseView::Update { tokens, finished }).len(),
    ensures
        match s.response_events(ResponseView::Update { tokens, finished })[i] {
            EventView::Interim(shown) => i == 0 && shown == on_show(s, tokens),
            EventView::Definite(definite) => definite == s.final_text + session::spoken(
                tokens,
                true,
            ),
            EventView::Final(transcript) => transcript == s.final_text + session::spoken(
                tokens,
                true,
            ),
            _ => false,
        },
{
}

/// How many events a response gives: an `Interim` if it is due, a `Definite` if the final text
/// grew, and the `Final` if the response is the last and there was none.
pub proof fn law_event_count(s: SessionView, tokens: Seq<TokenView>, finished: bool)
    ensures
        s.response_events(ResponseView::Update { tokens, finished }).len() == (if on_show(
            s,
            tokens,
        ).len() > 0 && on_show(s, tokens) != s.last_interim {
            1int
        } else {
            0
        }) + (if session::spoken(tokens, true).len() > 0 {
            1int
        } else {
            0
        }) + (if finished && !s.emitted_final {
            1int
        } else {
            0
        }),
{
}

/// Whenever the final text grew, a `Definite` with all of it comes right behind the `Interim`, if
/// there is one; where it did not grow, there is no `Definite`.
pub proof fn law_definite_when_grown(s: SessionView, tokens: Seq<TokenView>, finished: bool)
    ensures
        ({
            let events = s.response_events(ResponseView::Update { tokens, finished });
            let at: int = if on_show(s, tokens).len() > 0 && on_show(s, tokens) != s.last_interim {
                1
            } else {
                0
            };
            if session::spoken(tokens, true).len() > 0 {
                &&& events.len() > at
                &&& events[at] == EventView::Definite(
                    s.final_text + session::spoken(tokens, true),
                )
            } else {
                forall|i: int| 0 <= i < events.len() ==> !(#[trigger] events[i] is Definite)
            }
        }),
{
}

/// A response ends with the `Final` of the whole final text exactly if it says it is the last and
/// there was no `Final` before.
pub proof fn law_final_when_finished(s: SessionView, tokens: Seq<TokenView>, finished: bool)
    ensures
        ({
            let events = s.response_events(ResponseView::Update { tokens, finished });
            if finished && !s.emitted_final {
                &&& events.len() > 0
                &&& events.last() == EventView::Final(
                    s.final_text + session::spoken(tokens, true),
                )
            } else {
                forall|i: int| 0 <= i < events.len() ==> !(#[trigger] events[i] is Final)
            }
        }),
{
}

// Reading a response.

/// The text of a member that is a string, found in the object itself.
pub open spec fn string_in(members: Map<Seq<char>, JsonView>, key: Seq<char>) -> Option<
    Seq<char>,
> {
    if members.contains_key(key) && members[key] is Text {
        Some(members[key]->Text_0)
    } else {
        None
    }
}

/// A token is what its object says: the string `text` or else nothing, final exactly if
/// `is_final` is true, and the string `translation_status` if there is one.
pub proof fn law_token_is_what_it_says(members: Map<Seq<char>, JsonView>)
    ensures
        ({
            let token = response::token_of(JsonView::Object(members));
            &&& string_in(members, "text"@) matches Some(written) ==> token.text == written
            &&& string_in(members, "text"@) is None ==> token.text.len() == 0
            &&& token.is_final <==> members.contains_key("is_final"@) && members["is_final"@]
                == JsonView::Bool(true)
            &&& token.translation_status == string_in(members, "translation_status"@)
        }),
{
}

/// An object with an `error_code` or an `error_type`, whatever they hold, is an error, and nothing
/// else is. Its message is the string `error_message`, or else the string `error_type`, or else a
/// text of its own.
pub proof fn law_errors_are_told_by_their_members(members: Map<Seq<char>, JsonView>)
    ensures
        ({
            let told = response::response_of(JsonView::Object(members));
            let message = string_in(members, "error_message"@);
            let kind = string_in(members, "error_type"@);
            if members.contains_key("error_code"@) || members.contains_key("error_type"@) {
                &&& told matches ResponseView::Failure(given)
                &&& message is Some ==> given == message->0
                &&& message is None && kind is Some ==> given == kind->0
                &&& message is None && kind is None ==> given == "Unknown Soniox error"@
            } else {
                told is Update
            }
        }),
{
}

/// An object that is no error brings one token for each item of the array `tokens`, in their order,
/// none if there is no such array, and is the last exactly if `finished` is true.
pub proof fn law_updates_bring_every_token(members: Map<Seq<char>, JsonView>)
    requires
        !members.contains_key("error_code"@),
        !members.contains_key("error_type"@),
    ensures
        response::response_of(JsonView::Object(members)) matches ResponseView::Update {
            tokens,
            finished,
        } && {
            &&& finished <==> members.contains_key("finished"@) && members["finished"@]
                == JsonView::Bool(true)
            &&& if members.contains_key("tokens"@) && members["tokens"@] is Array {
                let items = members["tokens"@]->Array_0;
                &&& tokens.len() == items.len()
                &&& forall|i: int|
                    0 <= i < items.len() ==> #[trigger] tokens[i] == response::token_of(items[i])
            } else {
                tokens.len() == 0
            }
        },
{
}

/// What is no object is an empty response, and an empty token.
pub proof fn law_no_object_says_nothing(document: JsonView)
    requires
        !(document is Object),
    ensures
        response::response_of(document) == (ResponseView::Update {
            tokens: Seq::empty(),
            finished: false,
        }),
        response::token_of(document) == (TokenView {
            text: Seq::empty(),
            is_final: false,
            translation_status: None,
        }),
{
}

// What comes from the network.

/// What is given for a message that can be read is what its response gives; one that cannot be
/// read is an error that tells why.
pub proof fn law_messages_are_read(s: SessionView, message: Seq<char>)
    ensures
        match json::json_reading(message) {
            Ok(document) => {
                let response = response::response_of(document);
                let incoming = IncomingView::Text(message);
                &&& s.incoming_events(incoming) == Ok::<Seq<EventView>, ErrorView>(
                    s.response_events(response),
                )
                &&& s.after_incoming(incoming).final_text == s.after_response(response).final_text
                &&& s.after_incoming(incoming).last_interim == s.after_response(
                    response,
                ).last_interim
                &&& s.after_incoming(incoming).emitted_final == s.after_response(
                    response,
                ).emitted_final
            },
            Err(detail) => {
                &&& s.answer(IncomingView::Text(message)) == Err::<Option<EventView>, ErrorView>(
                    ErrorView::Protocol("parse response: "@ + detail),
                )
                &&& s.after_incoming(IncomingView::Text(message)) == s
            },
        },
{
}

/// A failed connection is an error with the message of the failure, and changes nothing.
pub proof fn law_failures_are_errors(s: SessionView, detail: Seq<char>)
    ensures
        s.answer(IncomingView::Failed(detail)) == Err::<Option<EventView>, ErrorView>(
            ErrorView::Protocol(detail),
        ),
        s.after_incoming(IncomingView::Failed(detail)) == s,
{
}

/// Binary and other frames give no event and no error.
pub proof fn law_other_frames_are_passed_over(s: SessionView)
    ensures
        s.incoming_events(IncomingView::Binary) == Ok::<Seq<EventView>, ErrorView>(Seq::empty()),
        s.incoming_events(IncomingView::Other) == Ok::<Seq<EventView>, ErrorView>(Seq::empty()),
{
}

/// The end of the connection gives the `Final` of the final text, unless there was one, and then
/// the `Closed` with its reason: that of the close frame, none if it has none, or that the stream
/// ended. From then on there was a `Final`, and the texts are as they were.
pub proof fn law_end_of_connection(s: SessionView, end: IncomingView)
    requires
        end is Close || end is Ended,
    ensures
        ({
            let reason = match end {
                IncomingView::Close(Some((code, why))) => Some(
                    "code="@ + text::decimal_digits(code as nat) + ", reason="@
                        + session::shown_reason(why),
                ),
                IncomingView::Close(None) => None,
                _ => Some("WebSocket stream ended"@),
            };
            let events = if s.emitted_final {
                seq![EventView::Closed(reason)]
            } else {
                seq![EventView::Final(s.final_text), EventView::Closed(reason)]
            };
            let after = s.after_incoming(end);
            &&& s.incoming_events(end) == Ok::<Seq<EventView>, ErrorView>(events)
            &&& after.emitted_final
            &&& after.final_text == s.final_text
            &&& after.last_interim == s.last_interim
        }),
{
    let reason = match end {
        IncomingView::Close(Some((code, why))) => Some(
            "code="@ + text::decimal_digits(code as nat) + ", reason="@ + session::shown_reason(
                why,
            ),
        ),
        IncomingView::Close(None) => None,
        _ => Some("WebSocket stream ended"@),
    };
    assert(s.end_events(reason) =~= if s.emitted_final {
        seq![EventView::Closed(reason)]
    } else {
        seq![EventView::Final(s.final_text), EventView::Closed(reason)]
    });
}

/// Whatever comes in, its events go behind those that wait; the caller gets the first of all of
/// them, and the others wait in their order. Connection and input are not touched.
pub proof fn law_first_of_the_queue_is_given(s: SessionView, incoming: IncomingView)
    requires
        s.incoming_events(incoming) is Ok,
    ensures
        ({
            let queue = s.pending_events + s.incoming_events(incoming)->Ok_0;
            let after = s.after_incoming(incoming);
            &&& after.connected == s.connected
            &&& after.input_finished == s.input_finished
            &&& if queue.len() > 0 {
                &&& s.answer(incoming) == Ok::<Option<EventView>, ErrorView>(Some(queue[0]))
                &&& after.pending_events == queue.subrange(1, queue.len() as int)
            } else {
                &&& s.answer(incoming) == Ok::<Option<EventView>, ErrorView>(None)
                &&& after.pending_events == Seq::<EventView>::empty()
            }
        }),
{
    assert(s.received(incoming).pending_events =~= s.pending_events + s.incoming_events(
        incoming,
    )->Ok_0);
}

/// Asking for an event gives the first that waits, and takes just that one away.
pub proof fn law_asking_takes_the_first(s: SessionView)
    ensures
        s.pending_events.len() == 0 ==> s.next_pending() is None && s.handed_out() == s,
        s.pending_events.len() > 0 ==> {
            &&& s.next_pending() == Some(s.pending_events[0])
            &&& seq![s.pending_events[0]] + s.handed_out().pending_events == s.pending_events
            &&& s.handed_out() == (SessionView {
                pending_events: s.handed_out().pending_events,
                ..s
            })
        },
{
}

/// The `Final` of a session carries its final text, is owed exactly until it was made, and making
/// it changes nothing but that.
pub proof fn law_final_is_owed_once(s: SessionView)
    ensures
        s.emitted_final ==> s.final_events().len() == 0,
        !s.emitted_final ==> s.final_events() == seq![EventView::Final(s.final_text)],
        s.finalized() == (SessionView { emitted_final: true, ..s }),
{
}

/// Queued events wait behind those that wait already.
pub proof fn law_queue_keeps_order(s: SessionView, events: Seq<EventView>)
    ensures
        s.queued(events) == (SessionView { pending_events: s.pending_events + events, ..s }),
{
}

/// The number that decimal digits stand for.
pub open spec fn number(digits: Seq<char>) -> int
    decreases digits.len(),
{
    if digits.len() == 0 {
        0
    } else {
        number(digits.drop_last()) * 10 + (digits.last() as u32 - '0' as u32)
    }
}

/// Decimal digits stand for the number that they were made of, and have no leading zero.
pub proof fn law_decimal(n: nat)
    ensures
        ({
            let digits = text::decimal_digits(n);
            &&& number(digits) == n
            &&& digits.len() > 0
            &&& n > 0 ==> digits[0] != '0'
            &&& n == 0 ==> digits.len() == 1
            &&& forall|i: int| 0 <= i < digits.len() ==> '0' <= #[trigger] digits[i] <= '9'
        }),
    decreases n,
{
    let digits = text::decimal_digits(n);
    if n < 10 {
        assert(digits.drop_last() =~= Seq::empty());
        assert(number(digits.drop_last()) == 0);
    } else {
        law_decimal(n / 10);
        assert(digits.drop_last() =~= text::decimal_digits(n / 10));
    }
}

/// The value of a lower-case hexadecimal digit.
pub open spec fn hex_value(c: char) -> int {
    if '0' <= c <= '9' {
        c as u32 - '0' as u32
    } else {
        c as u32 - 'a' as u32 + 10
    }
}

/// A byte is shown as itself where it is printable ASCII other than a quote or a backslash, behind
/// a backslash where it is one of these, by a letter or a zero where it is one of the usual control
/// characters, and else by its two hexadecimal digits.
pub proof fn law_shown_byte(b: u8)
    ensures
        ({
            let shown = session::escaped_byte(b);
            let special = b == 0 || b == 9 || b == 10 || b == 13 || b == 34 || b == 92;
            &&& 32 <= b <= 126 && !special ==> shown == seq![b as char]
            &&& b == 34 || b == 92 ==> shown == seq!['\\', b as char]
            &&& b == 0 ==> shown == seq!['\\', '0']
            &&& b == 9 ==> shown == seq!['\\', 't']
            &&& b == 10 ==> shown == seq!['\\', 'n']
            &&& b == 13 ==> shown == seq!['\\', 'r']
            &&& !(32 <= b <= 126) && !special ==> {
                &&& shown.len() == 4
                &&& shown[0] == '\\' && shown[1] == 'x'
                &&& '0' <= shown[2] <= '9' || 'a' <= shown[2] <= 'f'
                &&& '0' <= shown[3] <= '9' || 'a' <= shown[3] <= 'f'
                &&& hex_value(shown[2]) * 16 + hex_value(shown[3]) == b
            }
        }),
{
}

/// Bytes are shown one after another.
pub proof fn law_shown_bytes(bytes: Seq<u8>, b: u8)
    ensures
        session::escaped(Seq::empty()) == Seq::<char>::empty(),
        session::escaped(bytes.push(b)) == session::escaped(bytes) + session::escaped_byte(b),
{
    assert(bytes.push(b).drop_last() =~= bytes);
}

/// A reason of printable ASCII without quotes and backslashes is shown as it is, inside the name
/// of its type.
pub proof fn law_plain_reason(reason: Seq<char>)
    requires
        forall|i: int|
            0 <= i < reason.len() ==> ' ' <= #[trigger] reason[i] <= '~' && reason[i] != '"'
                && reason[i] != '\\',
    ensures
        session::shown_reason(reason) == "Utf8Bytes(b\""@ + reason + "\")"@,
{
    assert(is_ascii_chars(reason));
    is_ascii_chars_encode_utf8(reason);
    let bytes = encode_utf8(reason);
    lemma_plain_bytes(bytes, reason);
}

proof fn lemma_plain_bytes(bytes: Seq<u8>, reason: Seq<char>)
    requires
        bytes.len() == reason.len(),
        forall|i: int|
            0 <= i < reason.len() ==> {
                &&& ' ' <= #[trigger] reason[i] <= '~' && reason[i] != '"' && reason[i] != '\\'
                &&& bytes[i] as char == reason[i]
            },
    ensures
        session::escaped(bytes) == reason,
    decreases bytes.len(),
{
    if bytes.len() > 0 {
        lemma_plain_bytes(bytes.drop_last(), reason.drop_last());
        assert(reason[reason.len() - 1] == bytes.last() as char);
        assert(session::escaped(bytes) =~= reason);
    } else {
        assert(session::escaped(bytes) =~= reason);
    }
}

// Opening, configuring, ending, closing.

/// A new or closed session holds nothing.
pub proof fn law_new_and_closed_hold_nothing(s: SessionView)
    ensures
        s.closed() == SessionView::fresh(),
        !s.closed().connected,
        !s.closed().input_finished,
        !s.closed().emitted_final,
        s.closed().pending_events.len() == 0,
        s.closed().final_text.len() == 0,
        s.closed().last_interim.len() == 0,
{
}

/// Only an opened connection counts as one; nothing else changes with it.
pub proof fn law_opening_connects(s: SessionView, detail: Seq<char>)
    ensures
        s.after_opening(OpeningView::Open) == (SessionView { connected: true, ..s }),
        s.after_opening(OpeningView::TimedOut) == s,
        s.after_opening(OpeningView::Failed(detail)) == s,
{
}

/// A configuration message that was sent starts a new transcript and says so behind what waits;
/// one that could not be sent changes nothing and is an error.
pub proof fn law_configuring_starts_anew(s: SessionView, detail: Seq<char>)
    ensures
        s.after_config(None) == (SessionView {
            connected: s.connected,
            input_finished: false,
            pending_events: s.pending_events.push(EventView::Connected),
            final_text: Seq::empty(),
            last_interim: Seq::empty(),
            emitted_final: false,
        }),
        s.after_config(Some(detail)) == s,
        session::send_result(NetworkStep::SendConfig, None) is Ok,
        session::send_result(NetworkStep::SendConfig, Some(detail)) == Err::<(), ErrorView>(
            ErrorView::Protocol("send config: "@ + detail),
        ),
        session::send_result(NetworkStep::SendAudio, None) is Ok,
        session::send_result(NetworkStep::SendAudio, Some(detail)) == Err::<(), ErrorView>(
            ErrorView::Protocol("send audio: "@ + detail),
        ),
{
}

/// The end of the audio is asked for with the text of the finalize request exactly on an open
/// connection on which it was not asked for yet, and is noted in any case.
pub proof fn law_input_ends_once(s: SessionView)
    ensures
        s.input_ended() == (SessionView { input_finished: true, ..s }),
        s.connected && !s.input_finished ==> s.finish_first() == Some(
            OutgoingView {
                step: NetworkStep::SendFinalize,
                text: "{\"type\":\"finalize\"}"@,
            },
        ),
        !s.connected || s.input_finished ==> s.finish_first() is None,
{
}

/// After the finalize request comes the empty end-of-audio mark, after anything else nothing; after
/// a failure comes the error of what failed, and nothing more is sent.
pub proof fn law_input_ends_in_two_messages(detail: Seq<char>)
    ensures
        forall|step: NetworkStep|
            !(step is SendFinalize) ==> #[trigger] session::finish_next(step, None) == Ok::<
                Option<OutgoingView>,
                ErrorView,
            >(None),
        forall|step: NetworkStep| #[trigger]
            session::finish_next(step, Some(detail)) == Err::<Option<OutgoingView>, ErrorView>(
                error::step_error(step, detail),
            ),
        session::finish_next(NetworkStep::SendFinalize, None) == Ok::<
            Option<OutgoingView>,
            ErrorView,
        >(Some(OutgoingView { step: NetworkStep::SendEndOfAudio, text: Seq::empty() })),
        session::finish_next(NetworkStep::SendFinalize, Some(detail)) == Err::<
            Option<OutgoingView>,
            ErrorView,
        >(ErrorView::Protocol("send finalize: "@ + detail)),
        session::finish_next(NetworkStep::SendEndOfAudio, Some(detail)) == Err::<
            Option<OutgoingView>,
            ErrorView,
        >(ErrorView::Protocol("send end-of-audio: "@ + detail)),
{
}

/// The error of a step says which step it was and why it failed, and there is one exactly if it
/// failed.
pub proof fn law_step_errors(detail: Seq<char>)
    ensures
        forall|step: NetworkStep| #[trigger]
            session::send_result(step, None) == Ok::<(), ErrorView>(()),
        forall|step: NetworkStep| #[trigger]
            session::send_result(step, Some(detail)) == Err::<(), ErrorView>(
                error::step_error(step, detail),
            ),
        error::step_error(NetworkStep::Connect, detail) == ErrorView::Connection(detail),
        error::step_error(NetworkStep::SendConfig, detail) == ErrorView::Protocol(
            "send config: "@ + detail,
        ),
        error::step_error(NetworkStep::SendAudio, detail) == ErrorView::Protocol(
            "send audio: "@ + detail,
        ),
        error::step_error(NetworkStep::SendFinalize, detail) == ErrorView::Protocol(
            "send finalize: "@ + detail,
        ),
        error::step_error(NetworkStep::SendEndOfAudio, detail) == ErrorView::Protocol(
            "send end-of-audio: "@ + detail,
        ),
{
}

// The settings.

/// The key in use is `api_key` wherever it is not empty, else `access_key`; without either it is
/// an error.
pub proof fn law_key_in_use(config: ConfigView)
    ensures
        config.api_key.len() > 0 ==> message::resolved_api_key(config) == Ok::<
            Seq<char>,
            ErrorView,
        >(config.api_key),
        config.api_key.len() == 0 && config.access_key.len() > 0 ==> message::resolved_api_key(
            config,
        ) == Ok::<Seq<char>, ErrorView>(config.access_key),
        config.api_key.len() == 0 && config.access_key.len() == 0 ==> message::resolved_api_key(
            config,
        ) == Err::<Seq<char>, ErrorView>(ErrorView::Connection("API key is required"@)),
{
}

/// Endpoint and model are those of the settings wherever they are not empty.
pub proof fn law_endpoint_and_model_in_use(config: ConfigView)
    ensures
        config.url.len() > 0 ==> message::resolved_url(config) == config.url,
        config.url.len() == 0 ==> message::resolved_url(config)
            == "wss://stt-rt.soniox.com/transcribe-websocket"@,
        config.app_key.len() > 0 ==> message::resolved_model(config) == config.app_key,
        config.app_key.len() == 0 ==> message::resolved_model(config) == "stt-rt-v5"@,
{
}

/// ASCII lower case, letter by letter.
pub proof fn law_lower_case(s: Seq<char>)
    ensures
        text::lowered(s).len() == s.len(),
        forall|i: int|
            0 <= i < s.len() ==> {
                &&& 'A' <= #[trigger] s[i] <= 'Z' ==> text::lowered(s)[i] as u32 == s[i] as u32 + 32
                &&& !('A' <= s[i] <= 'Z') ==> text::lowered(s)[i] == s[i]
            },
{
}

/// White space, by its code points.
pub proof fn law_white_space(c: char)
    ensures
        ({
            let code = c as u32;
            text::white_space(c) <==> {
                ||| 0x9 <= code <= 0xd
                ||| code == 0x20 || code == 0x85 || code == 0xa0 || code == 0x1680
                ||| 0x2000 <= code <= 0x200a
                ||| code == 0x2028 || code == 0x2029 || code == 0x202f || code == 0x205f
                ||| code == 0x3000
            }
        }),
{
}

/// Whether all of a text is white space.
pub open spec fn all_space(s: Seq<char>) -> bool {
    forall|i: int| 0 <= i < s.len() ==> text::white_space(#[trigger] s[i])
}

/// Whether a text neither starts nor ends with white space.
pub open spec fn tight(s: Seq<char>) -> bool {
    s.len() > 0 ==> !text::white_space(s[0]) && !text::white_space(s[s.len() - 1])
}

/// Trimming takes away all white space around a text and nothing else.
pub proof fn law_trim(before: Seq<char>, inner: Seq<char>, after: Seq<char>)
    requires
        all_space(before),
        all_space(after),
        tight(inner),
    ensures
        text::trimmed(before + inner + after) == inner,
{
    assert(before + inner + after =~= before + (inner + after));
    laws::lemma_leading_space(before, inner + after);
    laws::lemma_trailing_space(inner, after);
}

/// Whether the first `n` characters of a tag are what comes before its first `-` or `_`.
pub open spec fn before_separator(tag: Seq<char>, n: int) -> bool {
    &&& 0 <= n <= tag.len()
    &&& forall|i: int| 0 <= i < n ==> #[trigger] tag[i] != '-' && tag[i] != '_'
    &&& n < tag.len() ==> tag[n] == '-' || tag[n] == '_'
}

/// Whatever white space is around it, a tag that is not `auto` in any letter case and does not
/// start with a separator gives one hint: what comes before its first separator, or all of it if
/// there is none, in lower case.
pub proof fn law_hint_is_due(before: Seq<char>, tag: Seq<char>, after: Seq<char>, n: int)
    requires
        all_space(before),
        all_space(after),
        tight(tag),
        text::lowered(tag) != "auto"@,
        before_separator(tag, n),
        n > 0,
    ensures
        message::hints_for(Some(before + tag + after)) == seq![text::lowered(tag.take(n))],
{
    law_trim(before, tag, after);
    lemma_primary(tag, n);
}

/// There is no hint exactly where there is no language, or where, white space aside, it is empty,
/// is `auto` in any letter case, or starts with a separator.
pub proof fn law_no_hint_only_without_language(
    before: Seq<char>,
    tag: Seq<char>,
    after: Seq<char>,
)
    requires
        all_space(before),
        all_space(after),
        tight(tag),
    ensures
        message::hints_for(None) == Seq::<Seq<char>>::empty(),
        message::hints_for(Some(before + tag + after)).len() == 0 <==> (tag.len() == 0
            || text::lowered(tag) == "auto"@ || tag[0] == '-' || tag[0] == '_'),
{
    law_trim(before, tag, after);
    if tag.len() > 0 {
        if tag[0] == '-' || tag[0] == '_' {
            lemma_primary(tag, 0);
        } else {
            let rest = tag.subrange(1, tag.len() as int);
            assert(message::primary_subtag(tag) == seq![tag[0]] + message::primary_subtag(rest));
        }
    }
}

proof fn lemma_primary(tag: Seq<char>, n: int)
    requires
        before_separator(tag, n),
    ensures
        message::primary_subtag(tag) == tag.take(n),
    decreases tag.len(),
{
    if n > 0 {
        let rest = tag.subrange(1, tag.len() as int);
        assert forall|i: int| 0 <= i < n - 1 implies #[trigger] rest[i] != '-' && rest[i]
            != '_' by {
            assert(rest[i] == tag[i + 1]);
        }
        lemma_primary(rest, n - 1);
        assert(tag[0] != '-' && tag[0] != '_');
        assert(seq![tag[0]] + rest.take(n - 1) =~= tag.take(n));
    } else {
        assert(tag.take(0) =~= Seq::empty());
    }
}

// The configuration message.

/// Whether a document is an array of just these strings.
pub open spec fn lists(document: JsonView, texts: Seq<Seq<char>>) -> bool {
    document matches JsonView::Array(items) && {
        &&& items.len() == texts.len()
        &&& forall|i: int|
            0 <= i < texts.len() ==> #[trigger] items[i] == JsonView::Text(texts[i])
    }
}

/// Whether a document says what the settings say: every member by its name, and no other member.
pub open spec fn says_the_settings(
    document: JsonView,
    config: ConfigView,
    api_key: Seq<char>,
) -> bool {
    document matches JsonView::Object(members) && {
        let hints = message::hints_for(config.language);
        &&& members.contains_key("api_key"@) && members["api_key"@] == JsonView::Text(api_key)
        &&& members.contains_key("model"@) && members["model"@] == JsonView::Text(
            if config.app_key.len() > 0 {
                config.app_key
            } else {
                "stt-rt-v5"@
            },
        )
        &&& members.contains_key("audio_format"@) && members["audio_format"@] == JsonView::Text(
            "pcm_s16le"@,
        )
        &&& members.contains_key("sample_rate"@) && members["sample_rate"@] == JsonView::Integer(
            config.sample_rate_hz as int,
        )
        &&& members.contains_key("num_channels"@) && members["num_channels"@]
            == JsonView::Integer(1)
        &&& members.contains_key("enable_endpoint_detection"@)
            && members["enable_endpoint_detection"@] == JsonView::Bool(true)
        &&& members.contains_key("language_hints"@) <==> hints.len() > 0
        &&& hints.len() > 0 ==> lists(members["language_hints"@], hints)
        &&& members.contains_key("enable_language_identification"@) <==> hints.len() == 0
        &&& hints.len() == 0 ==> members["enable_language_identification"@] == JsonView::Bool(true)
        &&& members.contains_key("context"@) <==> config.hotwords.len() > 0
        &&& config.hotwords.len() > 0 ==> says_the_terms(members["context"@], config.hotwords)
        &&& forall|name: Seq<char>| #[trigger]
            members.contains_key(name) ==> {
                ||| name == "api_key"@ || name == "model"@ || name == "audio_format"@
                ||| name == "sample_rate"@ || name == "num_channels"@
                ||| name == "enable_endpoint_detection"@
                ||| name == "language_hints"@ || name == "enable_language_identification"@
                ||| name == "context"@
            }
    }
}

/// Whether a document is an object of just the terms to expect.
pub open spec fn says_the_terms(document: JsonView, terms: Seq<Seq<char>>) -> bool {
    document matches JsonView::Object(members) && {
        &&& members.contains_key("terms"@) && lists(members["terms"@], terms)
        &&& forall|name: Seq<char>| #[trigger] members.contains_key(name) ==> name == "terms"@
    }
}

/// The configuration message says what the settings say.
pub proof fn law_message_says_the_settings(config: ConfigView, api_key: Seq<char>)
    ensures
        says_the_settings(message::config_message(config, api_key), config, api_key),
{
    laws::law_config_members(config, api_key);
    laws::law_hints_or_identification(config, api_key);
    laws::lemma_member_names();
}

/// What is sent first on an open connection is the written form of a document that says what the
/// settings say; where such a document cannot be written, it is an error that tells why.
pub proof fn law_first_message_says_the_settings(config: ConfigView, api_key: Seq<char>)
    ensures
        exists|document: JsonView| #[trigger]
            says_the_settings(document, config, api_key) && match json::json_writing(document) {
                Ok(written) => handshake::first_message(config, api_key, OpeningView::Open) == Ok::<
                    Seq<char>,
                    ErrorView,
                >(written),
                Err(detail) => handshake::first_message(config, api_key, OpeningView::Open)
                    == Err::<Seq<char>, ErrorView>(
                    ErrorView::Protocol("serialize config: "@ + detail),
                ),
            },
{
    law_message_says_the_settings(config, api_key);
    assert(says_the_settings(message::config_message(config, api_key), config, api_key));
}

/// A connection that did not open is an error that tells why, whatever the settings are.
pub proof fn law_no_message_without_connection(
    config: ConfigView,
    api_key: Seq<char>,
    detail: Seq<char>,
)
    ensures
        handshake::first_message(config, api_key, OpeningView::TimedOut) == Err::<
            Seq<char>,
            ErrorView,
        >(ErrorView::Connection("connection timed out"@)),
        handshake::first_message(config, api_key, OpeningView::Failed(detail)) == Err::<
            Seq<char>,
            ErrorView,
        >(ErrorView::Connection(detail)),
{
}

/// An array of strings lists just these strings.
pub proof fn law_text_array(texts: Seq<Seq<char>>)
    ensures
        lists(json::text_array(texts), texts),
{
}

// The plan.

/// A plan connects to the endpoint of the settings, or else to the service's own, within the time
/// of the settings and with the key in use, whatever the headers are.
pub proof fn law_plan_follows_the_settings(config: ConfigView, refusal: Option<Seq<char>>)
    requires
        handshake::plan_given(config, refusal) is Ok,
    ensures
        ({
            let plan = handshake::plan_given(config, refusal)->Ok_0;
            &&& config.url.len() > 0 ==> plan.url == config.url
            &&& config.url.len() == 0 ==> plan.url
                == "wss://stt-rt.soniox.com/transcribe-websocket"@
            &&& plan.timeout_ms == config.connect_timeout_ms
            &&& config.api_key.len() > 0 ==> plan.api_key == config.api_key
            &&& config.api_key.len() == 0 ==> config.access_key.len() > 0 && plan.api_key
                == config.access_key
            &&& refusal is None
        }),
{
}

/// A header that can be set: a name of 1 to 65535 letters, digits and token marks, and a value
/// without ASCII control characters but the tab.
pub open spec fn settable(header: (Seq<char>, Seq<char>)) -> bool {
    handshake::valid_header_name(header.0) && handshake::valid_header_value(header.1)
}

/// With headers of the settings that can all be set, just these are set, each in its place, with
/// its name in lower case and its value as it is, whatever the key is.
pub proof fn law_given_headers_are_set(config: ConfigView, api_key: Seq<char>)
    requires
        config.custom_headers.len() > 0,
        forall|i: int|
            0 <= i < config.custom_headers.len() ==> settable(#[trigger] config.custom_headers[i]),
    ensures
        handshake::headers_for(config, api_key) matches Ok(headers) && {
            &&& headers.len() == config.custom_headers.len()
            &&& forall|i: int|
                0 <= i < headers.len() ==> #[trigger] headers[i] == (
                    text::lowered(config.custom_headers[i].0),
                    config.custom_headers[i].1,
                )
        },
{
    laws::law_first_fault_decides(config.custom_headers);
}

/// Without headers of the settings, the one header that is set carries the key, unless the key
/// cannot stand in a header.
pub proof fn law_key_is_the_only_header(config: ConfigView, api_key: Seq<char>)
    requires
        config.custom_headers.len() == 0,
    ensures
        handshake::valid_header_value("Bearer "@ + api_key) ==> handshake::headers_for(
            config,
            api_key,
        ) == Ok::<Seq<(Seq<char>, Seq<char>)>, ErrorView>(
            seq![("authorization"@, "Bearer "@ + api_key)],
        ),
        !handshake::valid_header_value("Bearer "@ + api_key) ==> handshake::headers_for(
            config,
            api_key,
        ) == Err::<Seq<(Seq<char>, Seq<char>)>, ErrorView>(
            ErrorView::Connection("invalid api_key"@),
        ),
{
}

/// The characters that a header can have: in its name letters, digits and token marks; in its value
/// all but the ASCII control characters other than the tab.
pub proof fn law_header_characters(c: char)
    ensures
        handshake::valid_header_name(seq![c]) <==> {
            ||| 48 <= c as u32 <= 57
            ||| 65 <= c as u32 <= 90
            ||| 97 <= c as u32 <= 122
            ||| "!#$%&'*+-.^_`|~"@.contains(c)
        },
        handshake::valid_header_value(seq![c]) <==> c as u32 == 9 || (c as u32 >= 32 && c as u32
            != 127),
{
    let marks = "!#$%&'*+-.^_`|~"@;
    reveal_strlit("!#$%&'*+-.^_`|~");
    assert(seq![c][0] == c);
    assert(handshake::valid_header_name(seq![c]) == handshake::header_name_char(c));
    assert(marks[0] == '!' && marks[1] == '#' && marks[2] == '$' && marks[3] == '%' && marks[4]
        == '&' && marks[5] == '\'' && marks[6] == '*' && marks[7] == '+');
    assert(marks[8] == '-' && marks[9] == '.' && marks[10] == '^' && marks[11] == '_' && marks[12]
        == '`' && marks[13] == '|' && marks[14] == '~');
}

/// A name has 1 to 65535 characters, each of which could be a name; a value has any number of
/// characters, each of which could be a value.
pub proof fn law_header_texts(name: Seq<char>, value: Seq<char>)
    ensures
        handshake::valid_header_name(name) <==> {
            &&& 1 <= name.len() <= 65535
            &&& forall|i: int|
                0 <= i < name.len() ==> handshake::valid_header_name(seq![#[trigger] name[i]])
        },
        handshake::valid_header_value(value) <==> forall|i: int|
            0 <= i < value.len() ==> handshake::valid_header_value(seq![#[trigger] value[i]]),
{
    assert forall|c: char| #[trigger]
        handshake::valid_header_name(seq![c]) == handshake::header_name_char(c) by {
        assert(seq![c][0] == c);
    }
    assert forall|c: char| #[trigger]
        handshake::valid_header_value(seq![c]) == (c == '\t' || (c >= ' ' && c != '\u{7f}')) by {
        assert(seq![c][0] == c);
    }
}

/// A plan sets every header of the settings in its place, with its name in lower case and its
/// value as it is, or else the one header that carries the key.
pub proof fn law_plan_sets_every_header(config: ConfigView, refusal: Option<Seq<char>>)
    requires
        handshake::plan_given(config, refusal) is Ok,
    ensures
        ({
            let plan = handshake::plan_given(config, refusal)->Ok_0;
            let set = config.custom_headers;
            if set.len() > 0 {
                &&& plan.headers.len() == set.len()
                &&& forall|i: int|
                    0 <= i < set.len() ==> settable(#[trigger] set[i]) && plan.headers[i] == (
                        text::lowered(set[i].0),
                        set[i].1,
                    )
            } else {
                plan.headers == seq![("authorization"@, "Bearer "@ + plan.api_key)]
            }
        }),
{
    laws::law_first_fault_decides(config.custom_headers);
}

/// There is a plan wherever there is a key, the endpoint is not refused, and every header of the
/// settings can be set, or, where there is none, the header that carries the key.
pub proof fn law_plan_is_owed(config: ConfigView)
    requires
        config.api_key.len() > 0 || config.access_key.len() > 0,
        forall|i: int|
            0 <= i < config.custom_headers.len() ==> settable(#[trigger] config.custom_headers[i]),
        config.custom_headers.len() == 0 ==> handshake::valid_header_value(
            "Bearer "@ + if config.api_key.len() > 0 {
                config.api_key
            } else {
                config.access_key
            },
        ),
    ensures
        handshake::plan_given(config, None) is Ok,
{
    laws::law_first_fault_decides(config.custom_headers);
}

/// Why there is no plan: first that there is no key, then that the endpoint is refused, then what
/// is wrong with the headers.
pub proof fn law_why_no_plan(config: ConfigView, detail: Seq<char>)
    ensures
        config.api_key.len() == 0 && config.access_key.len() == 0 ==> handshake::plan_given(
            config,
            None,
        ) == Err::<PlanView, ErrorView>(ErrorView::Connection("API key is required"@))
            && handshake::plan_given(config, Some(detail)) == Err::<PlanView, ErrorView>(
            ErrorView::Connection("API key is required"@),
        ),
        config.api_key.len() > 0 || config.access_key.len() > 0 ==> handshake::plan_given(
            config,
            Some(detail),
        ) == Err::<PlanView, ErrorView>(ErrorView::Connection("invalid URL: "@ + detail)),
{
}

/// The first header that cannot be set decides: it is named in the error, for its name or else
/// for its value.
pub proof fn law_bad_header_is_named(config: ConfigView, bad: int)
    requires
        config.api_key.len() > 0 || config.access_key.len() > 0,
        0 <= bad < config.custom_headers.len(),
        !settable(config.custom_headers[bad]),
        forall|i: int| 0 <= i < bad ==> settable(#[trigger] config.custom_headers[i]),
    ensures
        handshake::plan_given(config, None) == Err::<PlanView, ErrorView>(
            ErrorView::Connection(
                if !handshake::valid_header_name(config.custom_headers[bad].0) {
                    "invalid header name: "@ + config.custom_headers[bad].0
                } else {
                    "invalid header value for "@ + config.custom_headers[bad].0
                },
            ),
        ),
{
    let set = config.custom_headers;
    laws::law_first_fault_decides(set);
    match handshake::checked_headers(set) {
        Ok(checked) => {
            assert(handshake::header_fault(set[bad]) is None);
        },
        Err(error) => {
            let i = choose|i: int|
                {
                    &&& 0 <= i < set.len()
                    &&& handshake::header_fault(#[trigger] set[i]) == Some(error)
                    &&& forall|j: int|
                        0 <= j < i ==> handshake::header_fault(#[trigger] set[j]) is None
                };
            if i < bad {
                assert(settable(set[i]));
            } else if i > bad {
                assert(handshake::header_fault(set[bad]) is None);
            }
            assert(i == bad);
        },
    }
}

/// A key that cannot stand in a header is an error, where no header of the settings takes its
/// place.
pub proof fn law_bad_key_is_refused(config: ConfigView)
    requires
        config.custom_headers.len() == 0,
        config.api_key.len() > 0 || config.access_key.len() > 0,
        !handshake::valid_header_value(
            "Bearer "@ + if config.api_key.len() > 0 {
                config.api_key
            } else {
                config.access_key
            },
        ),
    ensures
        handshake::plan_given(config, None) == Err::<PlanView, ErrorView>(
            ErrorView::Connection("invalid api_key"@),
        ),
{
}

/// A plan or an error is given just where it is stated, and says the same.
pub proof fn law_same_plan(exec: Result<ConnectPlan, AsrError>, stated: Result<PlanView, ErrorView>)
    requires
        handshake::same_plan(exec, stated),
    ensures
        exec is Ok <==> stated is Ok,
        exec matches Ok(plan) ==> plan@ == stated->Ok_0,
        exec matches Err(error) ==> error@ == stated->Err_0,
{
}

// What values say.

/// Of settings of which none is made, texts and lists are empty, numbers are zero, and there is no
/// language.
pub proof fn law_blank()
    ensures
        ({
            let blank = ConfigView::blank();
            &&& blank.url.len() == 0 && blank.app_key.len() == 0
            &&& blank.access_key.len() == 0 && blank.api_key.len() == 0
            &&& blank.language is None
            &&& blank.hotwords.len() == 0 && blank.custom_headers.len() == 0
            &&& blank.sample_rate_hz == 0 && blank.connect_timeout_ms == 0
        }),
{
}

/// Settings say what their fields say.
pub proof fn law_config_view(config: AsrConfig)
    ensures
        config@.url == config.url@,
        config@.app_key == config.app_key@,
        config@.access_key == config.access_key@,
        config@.api_key == config.api_key@,
        config.language is None <==> config@.language is None,
        config.language matches Some(language) ==> config@.language == Some(language@),
        config@.hotwords.len() == config.hotwords@.len(),
        forall|i: int|
            0 <= i < config.hotwords@.len() ==> #[trigger] config@.hotwords[i]
                == config.hotwords@[i]@,
        config@.sample_rate_hz == config.sample_rate_hz,
        config@.connect_timeout_ms == config.connect_timeout_ms,
        config@.custom_headers == handshake::header_views(config.custom_headers@),
{
}

/// A list of headers says what its names and values say, in their order.
pub proof fn law_header_views(headers: Seq<(String, String)>)
    ensures
        handshake::header_views(headers).len() == headers.len(),
        forall|i: int|
            0 <= i < headers.len() ==> #[trigger] handshake::header_views(headers)[i] == (
                headers[i].0@,
                headers[i].1@,
            ),
{
}

/// A session says what its fields say.
pub proof fn law_session_view(session: SonioxAsrProvider)
    ensures
        session@.connected == session.connected,
        session@.input_finished == session.input_finished,
        session@.final_text == session.final_text@,
        session@.last_interim == session.last_interim@,
        session@.emitted_final == session.emitted_final,
        session@.pending_events == event::event_views(session.pending_events@),
{
}

/// Events say what they carry, in their order.
pub proof fn law_event_views(events: Seq<AsrEvent>)
    ensures
        event::event_views(events).len() == events.len(),
        forall|i: int|
            0 <= i < events.len() ==> #[trigger] event::event_views(events)[i] == match events[i] {
                AsrEvent::Connected => EventView::Connected,
                AsrEvent::Interim(shown) => EventView::Interim(shown@),
                AsrEvent::Definite(definite) => EventView::Definite(definite@),
                AsrEvent::Final(transcript) => EventView::Final(transcript@),
                AsrEvent::Error(detail) => EventView::Error(detail@),
                AsrEvent::Closed(reason) => EventView::Closed(session::text_view(reason)),
            },
{
}

/// An optional text says what it holds.
pub proof fn law_text_view(optional: Option<String>)
    ensures
        optional is None <==> session::text_view(optional) is None,
        optional matches Some(held) ==> session::text_view(optional) == Some(held@),
{
}

/// An error says its kind and its message.
pub proof fn law_error_view(error: AsrError)
    ensures
        error matches AsrError::Connection(detail) ==> error@ == ErrorView::Connection(detail@),
        error matches AsrError::Protocol(detail) ==> error@ == ErrorView::Protocol(detail@),
{
}

/// What comes from the network says its kind and what it carries.
pub proof fn law_incoming_view(incoming: Incoming)
    ensures
        incoming matches Incoming::Text(message) ==> incoming@ == IncomingView::Text(message@),
        incoming matches Incoming::Close(Some(frame)) ==> incoming@ == IncomingView::Close(
            Some((frame.code, frame.reason@)),
        ),
        incoming matches Incoming::Close(None) ==> incoming@ == IncomingView::Close(None),
        incoming is Binary ==> incoming@ is Binary,
        incoming is Other ==> incoming@ is Other,
        incoming matches Incoming::Failed(detail) ==> incoming@ == IncomingView::Failed(detail@),
        incoming is Ended ==> incoming@ is Ended,
{
}

/// An attempt to open a connection says how it came out.
pub proof fn law_opening_view(opening: Opening)
    ensures
        opening is Open <==> opening@ is Open,
        opening is TimedOut <==> opening@ is TimedOut,
        opening matches Opening::Failed(detail) ==> opening@ == OpeningView::Failed(detail@),
{
}

/// A message to send says its step and its text.
pub proof fn law_outgoing_view(outgoing: Outgoing)
    ensures
        outgoing@.step == outgoing.step,
        outgoing@.text == outgoing.text@,
{
}

/// A plan says what its fields say.
pub proof fn law_plan_view(plan: ConnectPlan)
    ensures
        plan@.api_key == plan.api_key@,
        plan@.url == plan.url@,
        plan@.timeout_ms == plan.timeout_ms,
        plan@.headers == handshake::header_views(plan.headers@),
{
}

/// A response says its message, or its tokens in their order and whether they are the last; a
/// token says what its fields say.
pub proof fn law_response_view(response: Response)
    ensures
        response matches Response::Failure(detail) ==> response@ == ResponseView::Failure(detail@),
        response matches Response::Update { tokens, finished } ==> (response@
            matches ResponseView::Update { tokens: told, finished: last } && {
            &&& last == finished
            &&& told.len() == tokens@.len()
            &&& forall|i: int|
                0 <= i < tokens@.len() ==> {
                    &&& (#[trigger] told[i]).text == tokens@[i].text@
                    &&& told[i].is_final == tokens@[i].is_final
                    &&& told[i].translation_status == session::text_view(
                        tokens@[i].translation_status,
                    )
                }
        }),
{
}

} // verus!
