//! Laws of a session: what holds of its transcript, its events and its messages as a whole.

use crate::config::ConfigView;
use crate::error::ErrorView;
use crate::event::EventView;
use crate::handshake;
use crate::json;
use crate::json::JsonView;
use crate::message;
use crate::response;
use crate::response::{ResponseView, TokenView};
use crate::session;
use crate::session::{
    IncomingView, OutgoingView, SessionView, END_TOKEN, FINALIZED_TOKEN, FINALIZE_MESSAGE,
};
use crate::text;
use vstd::prelude::*;

pub mod effects;

verus! {

/// Tokens one after another give their texts one after another.
pub proof fn law_tokens_accumulate(a: Seq<TokenView>, b: Seq<TokenView>, is_final: bool)
    ensures
        session::spoken(a + b, is_final) == session::spoken(a, is_final) + session::spoken(
            b,
            is_final,
        ),
    decreases b.len(),
{
    if b.len() == 0 {
        assert(a + b =~= a);
        assert(session::spoken(a, is_final) + session::spoken(b, is_final) =~= session::spoken(
            a,
            is_final,
        ));
    } else {
        assert((a + b).drop_last() =~= a + b.drop_last());
        law_tokens_accumulate(a, b.drop_last(), is_final);
        assert(session::spoken(a + b, is_final) =~= session::spoken(a, is_final) + session::spoken(
            b,
            is_final,
        ));
    }
}

/// Control tokens have no part in the transcript: without them, the texts are the same.
pub proof fn law_control_tokens_are_silent(tokens: Seq<TokenView>, is_final: bool)
    ensures
        session::spoken(
            tokens.filter(|token: TokenView| !session::control_text(token.text)),
            is_final,
        ) == session::spoken(tokens, is_final),
{
    lemma_filter_keeps_speech(
        tokens,
        |token: TokenView| !session::control_text(token.text),
        is_final,
    );
}

/// The texts of the speech tokens that are final, or of those that are not.
pub open spec fn pieces(tokens: Seq<TokenView>, is_final: bool) -> Seq<Seq<char>> {
    tokens.filter(
        |token: TokenView| session::is_speech(token) && token.is_final == is_final,
    ).map_values(|token: TokenView| token.text)
}

/// The transcript is put together from token texts of which none is empty and none is a control
/// token.
pub proof fn law_transcript_is_made_of_speech(tokens: Seq<TokenView>, is_final: bool)
    ensures
        session::spoken(tokens, is_final) == pieces(tokens, is_final).flatten(),
        forall|i: int|
            0 <= i < pieces(tokens, is_final).len() ==> {
                &&& (#[trigger] pieces(tokens, is_final)[i]).len() > 0
                &&& pieces(tokens, is_final)[i] != END_TOKEN@
                &&& pieces(tokens, is_final)[i] != FINALIZED_TOKEN@
            },
{
    let keep = |token: TokenView| session::is_speech(token) && token.is_final == is_final;
    assert forall|i: int| 0 <= i < pieces(tokens, is_final).len() implies {
        &&& (#[trigger] pieces(tokens, is_final)[i]).len() > 0
        &&& pieces(tokens, is_final)[i] != END_TOKEN@
        &&& pieces(tokens, is_final)[i] != FINALIZED_TOKEN@
    } by {
        tokens.lemma_filter_pred(keep, i);
    }
    lemma_spoken_is_pieces(tokens, is_final);
    pieces(tokens, is_final).lemma_flatten_and_flatten_alt_are_equivalent();
}

proof fn lemma_spoken_is_pieces(tokens: Seq<TokenView>, is_final: bool)
    ensures
        session::spoken(tokens, is_final) == pieces(tokens, is_final).flatten_alt(),
    decreases tokens.len(),
{
    reveal(Seq::filter);
    let keep = |token: TokenView| session::is_speech(token) && token.is_final == is_final;
    if tokens.len() > 0 {
        lemma_spoken_is_pieces(tokens.drop_last(), is_final);
        let rest = pieces(tokens.drop_last(), is_final);
        if keep(tokens.last()) {
            assert(pieces(tokens, is_final) =~= rest.push(tokens.last().text));
            assert(rest.push(tokens.last().text).drop_last() =~= rest);
        } else {
            assert(pieces(tokens, is_final) =~= rest);
        }
    } else {
        assert(pieces(tokens, is_final) =~= Seq::empty());
    }
}

/// Translations have no part in the transcript: without them, the texts are the same.
pub proof fn law_translations_are_silent(tokens: Seq<TokenView>, is_final: bool)
    ensures
        session::spoken(
            tokens.filter(
                |token: TokenView| token.translation_status != Some("translation"@),
            ),
            is_final,
        ) == session::spoken(tokens, is_final),
{
    lemma_filter_keeps_speech(
        tokens,
        |token: TokenView| token.translation_status != Some("translation"@),
        is_final,
    );
}

/// Tokens that are not final have no part in the final text: without them, it is the same.
pub proof fn law_only_final_tokens_stay(tokens: Seq<TokenView>)
    ensures
        session::spoken(tokens.filter(|token: TokenView| token.is_final), true)
            == session::spoken(tokens, true),
{
    lemma_filter_keeps_speech(tokens, |token: TokenView| token.is_final, true);
}

/// Leaving out tokens that are passed over anyway leaves the texts as they are.
proof fn lemma_filter_keeps_speech(
    tokens: Seq<TokenView>,
    keep: spec_fn(TokenView) -> bool,
    is_final: bool,
)
    requires
        forall|token: TokenView|
            #[trigger] session::is_speech(token) && token.is_final == is_final ==> keep(token),
    ensures
        session::spoken(tokens.filter(keep), is_final) == session::spoken(tokens, is_final),
    decreases tokens.len(),
{
    reveal(Seq::filter);
    if tokens.len() > 0 {
        lemma_filter_keeps_speech(tokens.drop_last(), keep, is_final);
        let rest = tokens.drop_last().filter(keep);
        if keep(tokens.last()) {
            assert(tokens.filter(keep) =~= rest.push(tokens.last()));
            assert(rest.push(tokens.last()).drop_last() =~= rest);
        }
    }
}

/// Control tokens alone add nothing to the final text, nor to the text on show.
pub proof fn law_control_tokens_change_no_text(s: SessionView, tokens: Seq<TokenView>)
    requires
        forall|i: int| 0 <= i < tokens.len() ==> session::control_text(#[trigger] tokens[i].text),
    ensures
        s.after_tokens(tokens).final_text == s.final_text,
        s.interim_after(tokens) == s.final_text,
{
    lemma_control_only(tokens, true);
    lemma_control_only(tokens, false);
    assert(s.final_text + Seq::<char>::empty() =~= s.final_text);
}

proof fn lemma_control_only(tokens: Seq<TokenView>, is_final: bool)
    requires
        forall|i: int| 0 <= i < tokens.len() ==> session::control_text(#[trigger] tokens[i].text),
    ensures
        session::spoken(tokens, is_final) == Seq::<char>::empty(),
    decreases tokens.len(),
{
    if tokens.len() > 0 {
        assert forall|i: int| 0 <= i < tokens.drop_last().len() implies session::control_text(
            #[trigger] tokens.drop_last()[i].text,
        ) by {
            assert(session::control_text(tokens[i].text));
        }
        lemma_control_only(tokens.drop_last(), is_final);
        assert(session::control_text(tokens[tokens.len() - 1].text));
    }
}

/// The final text never loses anything, whatever comes from the network.
pub proof fn law_final_text_grows(s: SessionView, incoming: IncomingView)
    ensures
        s.final_text.is_prefix_of(s.after_incoming(incoming).final_text),
{
    let after = s.heard(incoming).final_text;
    assert(s.final_text =~= after.subrange(0, s.final_text.len() as int));
}

/// Whether an event is of the kind that a response may give.
pub open spec fn response_event(event: EventView) -> bool {
    event is Interim || event is Definite || event is Final || event is Error
}

/// No response gives a `Closed` or a `Connected` event, not even the one that says it is the
/// last.
pub proof fn law_responses_never_close(s: SessionView, response: ResponseView)
    ensures
        forall|i: int|
            0 <= i < s.response_events(response).len() ==> response_event(
                #[trigger] s.response_events(response)[i],
            ),
{
}

/// The response that says it is the last gives the transcript, once, behind its other events.
pub proof fn law_finished_gives_transcript(s: SessionView, tokens: Seq<TokenView>)
    requires
        !s.emitted_final,
    ensures
        ({
            let response = ResponseView::Update { tokens, finished: true };
            &&& s.response_events(response).len() > 0
            &&& s.response_events(response).last() == EventView::Final(s.final_text_after(tokens))
            &&& s.after_response(response).emitted_final
        }),
{
}

/// An error of the service is reported and changes nothing.
pub proof fn law_failure_changes_nothing(s: SessionView, detail: Seq<char>)
    ensures
        s.after_response(ResponseView::Failure(detail)) == s,
        s.response_events(ResponseView::Failure(detail)) == seq![EventView::Error(detail)],
{
}

/// A message that cannot be read, or a failed connection, changes nothing.
pub proof fn law_errors_change_nothing(s: SessionView, incoming: IncomingView)
    requires
        s.answer(incoming) is Err,
    ensures
        s.after_incoming(incoming) == s,
{
}

/// What is shown starts with the final text and is kept as what was shown last.
pub proof fn law_interim_shows_final_text(s: SessionView, response: ResponseView, i: int)
    requires
        0 <= i < s.response_events(response).len(),
        s.response_events(response)[i] is Interim,
    ensures
        s.response_events(response)[i]->Interim_0 == s.after_response(response).last_interim,
        s.after_response(response).final_text.is_prefix_of(
            s.response_events(response)[i]->Interim_0,
        ),
        s.response_events(response)[i]->Interim_0 != s.last_interim,
{
    if let ResponseView::Update { tokens, finished } = response {
        let interim = s.interim_after(tokens);
        assert(s.final_text_after(tokens) =~= interim.subrange(
            0,
            s.final_text_after(tokens).len() as int,
        ));
    }
}

/// The same tokens again, none of them final, show nothing new.
pub proof fn law_repeat_is_silent(s: SessionView, tokens: Seq<TokenView>)
    requires
        session::spoken(tokens, true).len() == 0,
    ensures
        s.after_tokens(tokens).response_events(ResponseView::Update { tokens, finished: false })
            == Seq::<EventView>::empty(),
{
    let again = s.after_tokens(tokens);
    assert(session::spoken(tokens, true) =~= Seq::empty());
    assert(again.final_text =~= s.final_text);
    assert(again.interim_after(tokens) =~= s.interim_after(tokens));
    assert(!again.shows_after(tokens));
    assert(again.response_events(ResponseView::Update { tokens, finished: false }) =~= Seq::empty());
}

/// Something that happens to a session on a connection.
pub enum Step {
    /// The caller asks for an event that is already there.
    Ask,
    /// Something comes from the network.
    Receive(IncomingView),
    /// The caller ends the audio.
    Finish,
}

/// The session after a step.
pub open spec fn after_step(s: SessionView, step: Step) -> SessionView {
    match step {
        Step::Ask => s.handed_out(),
        Step::Receive(incoming) => s.after_incoming(incoming),
        Step::Finish => s.input_ended(),
    }
}

/// The events that a step gives rise to; an error gives rise to none.
pub open spec fn made_by(s: SessionView, step: Step) -> Seq<EventView> {
    match step {
        Step::Receive(incoming) => match s.incoming_events(incoming) {
            Ok(events) => events,
            Err(_) => Seq::empty(),
        },
        _ => Seq::empty(),
    }
}

/// The event that the caller gets from a step, if it gets one.
pub open spec fn given_by(s: SessionView, step: Step) -> Seq<EventView> {
    match step {
        Step::Ask => match s.next_pending() {
            Some(event) => seq![event],
            None => Seq::empty(),
        },
        Step::Receive(incoming) => match s.answer(incoming) {
            Ok(Some(event)) => seq![event],
            _ => Seq::empty(),
        },
        Step::Finish => Seq::empty(),
    }
}

/// The session after all of `steps`.
pub open spec fn after_all(s: SessionView, steps: Seq<Step>) -> SessionView
    decreases steps.len(),
{
    if steps.len() == 0 {
        s
    } else {
        after_step(after_all(s, steps.drop_last()), steps.last())
    }
}

/// The events that `steps` give rise to.
pub open spec fn made(s: SessionView, steps: Seq<Step>) -> Seq<EventView>
    decreases steps.len(),
{
    if steps.len() == 0 {
        Seq::empty()
    } else {
        made(s, steps.drop_last()) + made_by(after_all(s, steps.drop_last()), steps.last())
    }
}

/// The events that the caller gets from `steps`.
pub open spec fn given(s: SessionView, steps: Seq<Step>) -> Seq<EventView>
    decreases steps.len(),
{
    if steps.len() == 0 {
        Seq::empty()
    } else {
        given(s, steps.drop_last()) + given_by(after_all(s, steps.drop_last()), steps.last())
    }
}

/// How many `Final` events there are.
pub open spec fn finals(events: Seq<EventView>) -> nat
    decreases events.len(),
{
    if events.len() == 0 {
        0
    } else {
        finals(events.drop_last()) + (if events.last() is Final {
            1nat
        } else {
            0nat
        })
    }
}

/// Events are handed out in the order in which they were made: what the caller got and what is
/// still queued is what was queued at first and what was made since.
pub proof fn law_events_keep_their_order(s: SessionView, steps: Seq<Step>)
    ensures
        given(s, steps) + after_all(s, steps).pending_events == s.pending_events + made(
            s,
            steps,
        ),
    decreases steps.len(),
{
    if steps.len() == 0 {
        assert(given(s, steps) + s.pending_events =~= s.pending_events + made(s, steps));
    } else {
        let before = steps.drop_last();
        let step = steps.last();
        law_events_keep_their_order(s, before);
        let mid = after_all(s, before);
        let queue = mid.pending_events + made_by(mid, step);
        assert(given_by(mid, step) + after_step(mid, step).pending_events =~= queue) by {
            if let Step::Receive(incoming) = step {
                if mid.incoming_events(incoming) is Ok {
                    assert(mid.received(incoming).pending_events =~= queue);
                }
            }
        }
        assert(given(s, steps) + after_all(s, steps).pending_events =~= given(s, before) + (
        given_by(mid, step) + after_step(mid, step).pending_events));
        assert(given(s, before) + queue =~= (given(s, before) + mid.pending_events) + made_by(
            mid,
            step,
        ));
        assert((s.pending_events + made(s, before)) + made_by(mid, step) =~= s.pending_events
            + made(s, steps));
    }
}

/// The `Final` event comes at most once on a connection, and it has come as soon as the session
/// says so.
pub proof fn law_one_final(s: SessionView, steps: Seq<Step>)
    ensures
        finals(made(s, steps)) == (if !s.emitted_final && after_all(s, steps).emitted_final {
            1nat
        } else {
            0nat
        }),
        s.emitted_final ==> after_all(s, steps).emitted_final,
    decreases steps.len(),
{
    if steps.len() > 0 {
        let before = steps.drop_last();
        let mid = after_all(s, before);
        law_one_final(s, before);
        lemma_finals_of_step(mid, steps.last());
        lemma_finals_add(made(s, before), made_by(mid, steps.last()));
    }
}

/// The end of the connection gives the transcript and the end, in this order, whatever came
/// before: by then there was exactly one `Final` event.
pub proof fn law_end_gives_transcript(
    s: SessionView,
    steps: Seq<Step>,
    end: IncomingView,
)
    requires
        !s.emitted_final,
        end is Close || end is Ended,
    ensures
        finals(made(s, steps.push(Step::Receive(end)))) == 1,
        made(s, steps.push(Step::Receive(end))).len() > 0,
        made(s, steps.push(Step::Receive(end))).last() is Closed,
        !after_all(s, steps).emitted_final ==> made_by(after_all(s, steps), Step::Receive(end))[0]
            == EventView::Final(after_all(s, steps).final_text),
{
    assert(steps.push(Step::Receive(end)).drop_last() =~= steps);
    law_one_final(s, steps.push(Step::Receive(end)));
    let mid = after_all(s, steps);
    assert(mid.after_incoming(end).emitted_final);
    assert(made_by(mid, Step::Receive(end)).len() > 0 && made_by(mid, Step::Receive(end)).last() is Closed);
    assert(made(s, steps.push(Step::Receive(end))).last() == made_by(mid, Step::Receive(end)).last());
}

/// From a new transcript on, the caller is handed at most one `Final` event, and no `Closed`
/// event before it.
pub proof fn law_one_final_is_handed_out(s: SessionView, steps: Seq<Step>)
    requires
        !s.emitted_final,
        forall|i: int|
            0 <= i < s.pending_events.len() ==> !(#[trigger] s.pending_events[i] is Final) && !(
            s.pending_events[i] is Closed),
    ensures
        finals(given(s, steps)) <= 1,
        forall|i: int|
            0 <= i < given(s, steps).len() && #[trigger] given(s, steps)[i] is Closed ==> finals(
                given(s, steps).take(i),
            ) == 1,
{
    let out = given(s, steps);
    let events = made(s, steps);
    let whole = s.pending_events + events;
    law_events_keep_their_order(s, steps);
    law_one_final(s, steps);
    lemma_no_finals(s.pending_events);
    lemma_finals_add(s.pending_events, events);
    lemma_finals_add(out, after_all(s, steps).pending_events);
    assert forall|i: int| 0 <= i < out.len() && #[trigger] out[i] is Closed implies finals(
        out.take(i),
    ) == 1 by {
        assert(out[i] == (out + after_all(s, steps).pending_events)[i]);
        let k = i - s.pending_events.len();
        if k < 0 {
            assert(s.pending_events[i] == whole[i]);
        }
        assert(events[k] == whole[i]);
        lemma_final_before_closed(s, steps, k);
        assert(out.take(i) =~= whole.take(i));
        assert(whole.take(i) =~= s.pending_events + events.take(k));
        lemma_finals_add(s.pending_events, events.take(k));
    }
}

/// On a session that was closed and opened again, whatever happened before, the caller is handed
/// at most one `Final` event, and no `Closed` event before it.
pub proof fn law_reopened_hands_out_one_final(s: SessionView, steps: Seq<Step>)
    ensures
        finals(given(s.closed().opened().configured(), steps)) <= 1,
        forall|i: int|
            #![trigger given(s.closed().opened().configured(), steps)[i]]
            0 <= i < given(s.closed().opened().configured(), steps).len() && given(
                s.closed().opened().configured(),
                steps,
            )[i] is Closed ==> finals(
                given(s.closed().opened().configured(), steps).take(i),
            ) == 1,
{
    law_reopened_is_new(s);
    law_one_final_is_handed_out(s.closed().opened().configured(), steps);
}

/// A `Closed` event is made behind exactly one `Final` event.
proof fn lemma_final_before_closed(s: SessionView, steps: Seq<Step>, i: int)
    requires
        !s.emitted_final,
        0 <= i < made(s, steps).len(),
        made(s, steps)[i] is Closed,
    ensures
        finals(made(s, steps).take(i)) == 1,
    decreases steps.len(),
{
    let before = steps.drop_last();
    let mid = after_all(s, before);
    let earlier = made(s, before);
    let latest = made_by(mid, steps.last());
    if i < earlier.len() {
        lemma_final_before_closed(s, before, i);
        assert(made(s, steps).take(i) =~= earlier.take(i));
    } else {
        let k = i - earlier.len();
        assert(made(s, steps)[i] == latest[k]);
        law_one_final(s, before);
        lemma_closed_is_last(mid, steps.last(), k);
        assert(made(s, steps).take(i) =~= earlier + mid.final_events());
        lemma_finals_add(earlier, mid.final_events());
        reveal_with_fuel(finals, 2);
        assert(mid.final_events().len() > 0 ==> mid.final_events().drop_last() =~= Seq::empty());
    }
}

/// A step that gives rise to a `Closed` event gives rise to the `Final` event before it, if that
/// is still owed, and to nothing else.
proof fn lemma_closed_is_last(s: SessionView, step: Step, k: int)
    requires
        0 <= k < made_by(s, step).len(),
        made_by(s, step)[k] is Closed,
    ensures
        made_by(s, step).take(k) == s.final_events(),
{
    if let Step::Receive(IncomingView::Text(message)) = step {
        if let Ok(document) = json::json_reading(message) {
            law_responses_never_close(s, response::response_of(document));
            assert(response_event(made_by(s, step)[k]));
        }
    } else {
        assert(made_by(s, step).take(k) =~= s.final_events());
    }
}

proof fn lemma_no_finals(events: Seq<EventView>)
    requires
        forall|i: int| 0 <= i < events.len() ==> !(#[trigger] events[i] is Final),
    ensures
        finals(events) == 0,
    decreases events.len(),
{
    if events.len() > 0 {
        assert(!(events[events.len() - 1] is Final));
        lemma_no_finals(events.drop_last());
    }
}

/// What comes from the network and gives no event changes nothing.
pub proof fn law_silent_frames_change_nothing(s: SessionView, incoming: IncomingView)
    requires
        s.incoming_events(incoming) == Ok::<Seq<EventView>, ErrorView>(Seq::empty()),
    ensures
        s.heard(incoming) == s,
        s.received(incoming) == s,
        s.after_incoming(incoming) == s.handed_out(),
{
    assert(s.pending_events + Seq::<EventView>::empty() =~= s.pending_events);
    match incoming {
        IncomingView::Text(message) => {
            let update = response::response_of(json::json_reading(message)->Ok_0);
            assert(s.response_events(update).len() == 0);
            if let ResponseView::Update { tokens, finished } = update {
                assert(s.final_text + session::spoken(tokens, true) =~= s.final_text);
                if finished {
                    assert(s.after_tokens(tokens).final_events().len() == 0);
                }
            }
        },
        IncomingView::Close(Some((code, reason))) => {
            assert(s.end_events(Some(session::close_text(code, reason))).len() > 0);
        },
        IncomingView::Close(None) => {
            assert(s.end_events(None).len() > 0);
        },
        IncomingView::Ended => {
            assert(s.end_events(Some("WebSocket stream ended"@)).len() > 0);
        },
        _ => {},
    }
}

/// How many `Final` events a step gives rise to.
proof fn lemma_finals_of_step(s: SessionView, step: Step)
    ensures
        finals(made_by(s, step)) == (if !s.emitted_final && after_step(s, step).emitted_final {
            1nat
        } else {
            0nat
        }),
        s.emitted_final ==> after_step(s, step).emitted_final,
{
    match step {
        Step::Receive(IncomingView::Text(message)) => {
            if let Ok(document) = json::json_reading(message) {
                lemma_finals_of_response(s, response::response_of(document));
            }
        },
        Step::Receive(IncomingView::Close(Some((code, reason)))) => {
            lemma_finals_of_end(s, Some(session::close_text(code, reason)));
        },
        Step::Receive(IncomingView::Close(None)) => {
            lemma_finals_of_end(s, None);
        },
        Step::Receive(IncomingView::Ended) => {
            lemma_finals_of_end(s, Some("WebSocket stream ended"@));
        },
        _ => {},
    }
}

/// How many `Final` events a response gives.
proof fn lemma_finals_of_response(s: SessionView, response: ResponseView)
    ensures
        finals(s.response_events(response)) == (if !s.emitted_final && s.after_response(
            response,
        ).emitted_final {
            1nat
        } else {
            0nat
        }),
{
    reveal_with_fuel(finals, 2);
    match response {
        ResponseView::Failure(detail) => {
            assert(seq![EventView::Error(detail)].drop_last() =~= Seq::empty());
        },
        ResponseView::Update { tokens, finished } => {
            let shown = if s.shows_after(tokens) {
                seq![EventView::Interim(s.interim_after(tokens))]
            } else {
                Seq::empty()
            };
            let definite = if session::spoken(tokens, true).len() > 0 {
                seq![EventView::Definite(s.final_text_after(tokens))]
            } else {
                Seq::empty()
            };
            let last = if finished {
                s.after_tokens(tokens).final_events()
            } else {
                Seq::empty()
            };
            assert(shown.len() > 0 ==> shown.drop_last() =~= Seq::empty());
            assert(definite.len() > 0 ==> definite.drop_last() =~= Seq::empty());
            assert(last.len() > 0 ==> last.drop_last() =~= Seq::empty());
            lemma_finals_add(shown, definite);
            lemma_finals_add(shown + definite, last);
        },
    }
}

/// How many `Final` events the end of the connection gives.
proof fn lemma_finals_of_end(s: SessionView, reason: Option<Seq<char>>)
    ensures
        finals(s.end_events(reason)) == (if s.emitted_final {
            0nat
        } else {
            1nat
        }),
{
    reveal_with_fuel(finals, 3);
    assert(s.end_events(reason).drop_last() =~= s.final_events());
    assert(s.final_events().len() > 0 ==> s.final_events().drop_last() =~= Seq::empty());
}

proof fn lemma_finals_add(a: Seq<EventView>, b: Seq<EventView>)
    ensures
        finals(a + b) == finals(a) + finals(b),
    decreases b.len(),
{
    if b.len() == 0 {
        assert(a + b =~= a);
    } else {
        assert((a + b).drop_last() =~= a + b.drop_last());
        lemma_finals_add(a, b.drop_last());
    }
}

/// The text of the final speech tokens that a step brings.
pub open spec fn said_in(step: Step) -> Seq<char> {
    match step {
        Step::Receive(IncomingView::Text(message)) => match json::json_reading(message) {
            Ok(document) => match response::response_of(document) {
                ResponseView::Update { tokens, .. } => session::spoken(tokens, true),
                ResponseView::Failure(_) => Seq::empty(),
            },
            Err(_) => Seq::empty(),
        },
        _ => Seq::empty(),
    }
}

/// The text of the final speech tokens that `steps` bring.
pub open spec fn said(steps: Seq<Step>) -> Seq<char>
    decreases steps.len(),
{
    if steps.len() == 0 {
        Seq::empty()
    } else {
        said(steps.drop_last()) + said_in(steps.last())
    }
}

/// The transcript is the text of the final speech tokens of every message, in their order.
pub proof fn law_transcript_is_what_was_said(s: SessionView, steps: Seq<Step>)
    ensures
        after_all(s, steps).final_text == s.final_text + said(steps),
    decreases steps.len(),
{
    if steps.len() == 0 {
        assert(s.final_text + said(steps) =~= s.final_text);
    } else {
        let before = steps.drop_last();
        law_transcript_is_what_was_said(s, before);
        let mid = after_all(s, before);
        assert(after_step(mid, steps.last()).final_text =~= mid.final_text + said_in(
            steps.last(),
        ));
        assert((s.final_text + said(before)) + said_in(steps.last()) =~= s.final_text + said(
            steps,
        ));
    }
}

/// A `Final` event carries the whole final text of its time.
pub proof fn law_final_carries_transcript(s: SessionView, step: Step, i: int)
    requires
        0 <= i < made_by(s, step).len(),
        made_by(s, step)[i] is Final,
    ensures
        made_by(s, step)[i] == EventView::Final(after_step(s, step).final_text),
{
}

/// The end of the audio is announced once, and only on an open connection.
pub proof fn law_finish_once(s: SessionView)
    ensures
        s.input_ended().finish_first() is None,
        !s.connected ==> s.finish_first() is None,
{
}

/// The audio is ended by the request to finalize and then by the empty end-of-audio mark. Where
/// one of the two fails, the error names that one, and where it is the first, the second is not
/// sent.
pub proof fn law_finish_order(
    s: SessionView,
    finalize_failure: Option<Seq<char>>,
    end_failure: Option<Seq<char>>,
)
    requires
        s.connected,
        !s.input_finished,
    ensures
        s.finish_first() matches Some(first) && {
            &&& first.text == FINALIZE_MESSAGE@
            &&& match finalize_failure {
                Some(detail) => session::finish_next(first.step, finalize_failure) == Err::<
                    Option<OutgoingView>,
                    ErrorView,
                >(ErrorView::Protocol("send finalize: "@ + detail)),
                None => session::finish_next(first.step, finalize_failure) matches Ok(
                    Some(second),
                ) && {
                    &&& second.text == Seq::<char>::empty()
                    &&& session::finish_next(second.step, end_failure) == match end_failure {
                        Some(detail) => Err::<Option<OutgoingView>, ErrorView>(
                            ErrorView::Protocol("send end-of-audio: "@ + detail),
                        ),
                        None => Ok(None),
                    }
                },
            }
        },
{
}

/// The `Final` event is made once, though it may be asked for again.
pub proof fn law_final_event_is_idempotent(s: SessionView)
    ensures
        s.finalized().final_events() == Seq::<EventView>::empty(),
        s.finalized().finalized() == s.finalized(),
{
}

/// Where the caller gets nothing, nothing is left to hand out.
pub proof fn law_nothing_given_nothing_left(s: SessionView, step: Step)
    requires
        step is Ask || (step matches Step::Receive(incoming) && s.answer(incoming) is Ok),
        given_by(s, step).len() == 0,
    ensures
        after_step(s, step).pending_events.len() == 0,
{
}

/// A session that was closed opens like a new one, with nothing queued but the `Connected`
/// event.
pub proof fn law_reopened_is_new(s: SessionView)
    ensures
        s.closed().opened().configured() == (SessionView {
            connected: true,
            pending_events: seq![EventView::Connected],
            ..SessionView::fresh()
        }),
{
    assert(s.closed().opened().configured().pending_events =~= seq![EventView::Connected]);
}

/// Opening a session starts a new transcript, which gets a `Final` event of its own, and keeps
/// what is queued.
pub proof fn law_new_transcript(s: SessionView)
    ensures
        s.opened().configured().connected,
        s.opened().configured().final_text == Seq::<char>::empty(),
        s.opened().configured().last_interim == Seq::<char>::empty(),
        !s.opened().configured().emitted_final,
        !s.opened().configured().input_finished,
        s.opened().configured().pending_events == s.pending_events.push(EventView::Connected),
{
}

/// There is at most one language hint. It is not empty, is in lower case and has no subtag
/// separator.
pub proof fn law_hint_shape(language: Option<Seq<char>>)
    ensures
        message::hints_for(language).len() <= 1,
        forall|i: int|
            #![trigger message::hints_for(language)[i]]
            0 <= i < message::hints_for(language).len() ==> {
                let hint = message::hints_for(language)[i];
                &&& hint.len() > 0
                &&& text::lowered(hint) == hint
                &&& forall|j: int|
                    0 <= j < hint.len() ==> !message::subtag_separator(#[trigger] hint[j])
            },
{
    if let Some(tag) = language {
        let primary = message::primary_subtag(text::trimmed(tag));
        lemma_primary_has_no_separator(text::trimmed(tag));
        let hint = text::lowered(primary);
        assert(text::lowered(hint) =~= hint);
        assert forall|j: int| 0 <= j < hint.len() implies !message::subtag_separator(
            #[trigger] hint[j],
        ) by {
            assert(!message::subtag_separator(primary[j]));
        }
    }
}

proof fn lemma_primary_has_no_separator(tag: Seq<char>)
    ensures
        forall|i: int|
            0 <= i < message::primary_subtag(tag).len() ==> !message::subtag_separator(
                #[trigger] message::primary_subtag(tag)[i],
            ),
    decreases tag.len(),
{
    if tag.len() > 0 && !message::subtag_separator(tag[0]) {
        let rest = tag.subrange(1, tag.len() as int);
        lemma_primary_has_no_separator(rest);
        assert forall|i: int|
            0 <= i < message::primary_subtag(tag).len() implies !message::subtag_separator(
            #[trigger] message::primary_subtag(tag)[i],
        ) by {
            if i > 0 {
                assert(message::primary_subtag(tag)[i] == message::primary_subtag(rest)[i - 1]);
            }
        }
    }
}

/// The configuration message says how to find the language in exactly one way: by hints where
/// there are any, or else by asking the service to identify it.
pub proof fn law_hints_or_identification(config: ConfigView, api_key: Seq<char>)
    ensures
        ({
            let body = message::config_message(config, api_key);
            let hints = message::hints_for(config.language);
            if hints.len() > 0 {
                &&& body.member("language_hints"@) == Some(json::text_array(hints))
                &&& body.member("enable_language_identification"@) is None
            } else {
                &&& body.member("language_hints"@) is None
                &&& body.member("enable_language_identification"@) == Some(JsonView::Bool(true))
            }
        }),
{
    lemma_member_names();
}

/// The configuration message has the key, the model, the audio format, the wish for endpoint
/// detection and, where there are words to expect, the context.
pub proof fn law_config_members(config: ConfigView, api_key: Seq<char>)
    ensures
        ({
            let body = message::config_message(config, api_key);
            &&& body.member("api_key"@) == Some(JsonView::Text(api_key))
            &&& body.member("model"@) == Some(JsonView::Text(message::resolved_model(config)))
            &&& body.member("audio_format"@) == Some(JsonView::Text("pcm_s16le"@))
            &&& body.member("sample_rate"@) == Some(
                JsonView::Integer(config.sample_rate_hz as int),
            )
            &&& body.member("num_channels"@) == Some(JsonView::Integer(1))
            &&& body.member("enable_endpoint_detection"@) == Some(JsonView::Bool(true))
            &&& if config.hotwords.len() > 0 {
                body.member("context"@) == Some(
                    JsonView::Object(map!["terms"@ => json::text_array(config.hotwords)]),
                )
            } else {
                body.member("context"@) is None
            }
        }),
{
    lemma_member_names();
}

/// The names of the members of a configuration message differ.
proof fn lemma_member_names()
    ensures
        "api_key"@.len() == 7 && "api_key"@[0] == 'a',
        "context"@.len() == 7 && "context"@[0] == 'c',
        "model"@.len() == 5,
        "audio_format"@.len() == 12 && "audio_format"@[0] == 'a',
        "num_channels"@.len() == 12 && "num_channels"@[0] == 'n',
        "sample_rate"@.len() == 11,
        "enable_endpoint_detection"@.len() == 25,
        "language_hints"@.len() == 14,
        "enable_language_identification"@.len() == 30,
{
    reveal_strlit("api_key");
    reveal_strlit("context");
    reveal_strlit("model");
    reveal_strlit("audio_format");
    reveal_strlit("num_channels");
    reveal_strlit("sample_rate");
    reveal_strlit("enable_endpoint_detection");
    reveal_strlit("language_hints");
    reveal_strlit("enable_language_identification");
}

/// Headers of the settings are set in place of the one that carries the API key: with them, the
/// key has no part in the headers.
pub proof fn law_custom_headers_hide_key(config: ConfigView, a: Seq<char>, b: Seq<char>)
    requires
        config.custom_headers.len() > 0,
    ensures
        handshake::headers_for(config, a) == handshake::headers_for(config, b),
{
}

/// Headers are taken as a whole or refused for the first that has a fault.
pub proof fn law_first_fault_decides(headers: Seq<(Seq<char>, Seq<char>)>)
    ensures
        match handshake::checked_headers(headers) {
            Ok(checked) => {
                &&& checked.len() == headers.len()
                &&& forall|i: int|
                    0 <= i < headers.len() ==> {
                        &&& handshake::header_fault(#[trigger] headers[i]) is None
                        &&& checked[i] == (text::lowered(headers[i].0), headers[i].1)
                    }
            },
            Err(error) => exists|i: int|
                {
                    &&& 0 <= i < headers.len()
                    &&& handshake::header_fault(#[trigger] headers[i]) == Some(error)
                    &&& forall|j: int|
                        0 <= j < i ==> handshake::header_fault(#[trigger] headers[j]) is None
                },
        },
    decreases headers.len(),
{
    if headers.len() > 0 {
        let before = headers.drop_last();
        law_first_fault_decides(before);
        match handshake::checked_headers(before) {
            Ok(checked) => {
                assert forall|j: int| 0 <= j < headers.len() - 1 implies {
                    &&& handshake::header_fault(#[trigger] headers[j]) is None
                    &&& checked[j] == (text::lowered(headers[j].0), headers[j].1)
                } by {
                    assert(before[j] == headers[j]);
                }
                let last = headers[headers.len() - 1];
                if handshake::header_fault(last) is None {
                    assert(handshake::checked_headers(headers) == Ok::<
                        Seq<(Seq<char>, Seq<char>)>,
                        ErrorView,
                    >(checked.push((text::lowered(last.0), last.1))));
                } else {
                    assert(handshake::checked_headers(headers) == Err::<
                        Seq<(Seq<char>, Seq<char>)>,
                        ErrorView,
                    >(handshake::header_fault(last)->0));
                }
            },
            Err(error) => {
                let i = choose|i: int|
                    {
                        &&& 0 <= i < before.len()
                        &&& handshake::header_fault(#[trigger] before[i]) == Some(error)
                        &&& forall|j: int|
                            0 <= j < i ==> handshake::header_fault(#[trigger] before[j]) is None
                    };
                assert(before[i] == headers[i]);
                assert forall|j: int| 0 <= j < i implies handshake::header_fault(
                    #[trigger] headers[j],
                ) is None by {
                    assert(before[j] == headers[j]);
                }
            },
        }
    }
}

/// Of headers that are set one after another, each name ends up with the value of the
/// last header of that name, and there is no other name.
pub proof fn law_last_header_counts(headers: Seq<(Seq<char>, Seq<char>)>)
    ensures
        forall|i: int|
            0 <= i < headers.len() ==> handshake::header_map(headers).contains_key(
                (#[trigger] headers[i]).0,
            ),
        forall|name: Seq<char>| #[trigger]
            handshake::header_map(headers).contains_key(name) ==> exists|i: int|
                last_of_name(headers, name, i) && handshake::header_map(headers)[name]
                    == headers[i].1,
    decreases headers.len(),
{
    if headers.len() > 0 {
        let before = headers.drop_last();
        let last = headers.len() - 1;
        law_last_header_counts(before);
        assert forall|i: int| 0 <= i < headers.len() implies handshake::header_map(
            headers,
        ).contains_key((#[trigger] headers[i]).0) by {
            if i < last {
                assert(before[i] == headers[i]);
            }
        }
        assert forall|name: Seq<char>| #[trigger]
            handshake::header_map(headers).contains_key(name) implies exists|i: int|
            last_of_name(headers, name, i) && handshake::header_map(headers)[name]
                == headers[i].1 by {
            if name == headers[last].0 {
                assert(last_of_name(headers, name, last));
            } else {
                assert(handshake::header_map(before).contains_key(name));
                let i = choose|i: int|
                    last_of_name(before, name, i) && handshake::header_map(before)[name]
                        == before[i].1;
                assert(before[i] == headers[i]);
                assert forall|j: int| i < j < headers.len() implies (#[trigger] headers[j]).0
                    != name by {
                    if j < last {
                        assert(before[j] == headers[j]);
                    }
                }
                assert(last_of_name(headers, name, i));
            }
        }
    }
}

/// Whether the header at `i` is the last one of its name.
pub open spec fn last_of_name(
    headers: Seq<(Seq<char>, Seq<char>)>,
    name: Seq<char>,
    i: int,
) -> bool {
    &&& 0 <= i < headers.len()
    &&& headers[i].0 == name
    &&& forall|j: int| i < j < headers.len() ==> (#[trigger] headers[j]).0 != name
}

/// Whether a header of the settings is the last one of its name, letter case aside.
pub open spec fn last_setting(headers: Seq<(Seq<char>, Seq<char>)>, i: int) -> bool {
    &&& 0 <= i < headers.len()
    &&& forall|j: int|
        i < j < headers.len() ==> text::lowered((#[trigger] headers[j]).0) != text::lowered(
            headers[i].0,
        )
}

/// Setting the plan's headers in order comes to every header of the settings, its name in lower
/// case and with the value of the last one of that name, and no other; or, where the settings have
/// none, to just the header that carries the API key.
pub proof fn law_plan_sets_headers(config: ConfigView, refusal: Option<Seq<char>>)
    requires
        handshake::plan_given(config, refusal) is Ok,
    ensures
        ({
            let plan = handshake::plan_given(config, refusal)->Ok_0;
            let result = plan.headers_once_set();
            let set = config.custom_headers;
            if set.len() == 0 {
                result == map!["authorization"@ => handshake::bearer(plan.api_key)]
            } else {
                &&& forall|i: int|
                    0 <= i < set.len() ==> result.contains_key(
                        text::lowered((#[trigger] set[i]).0),
                    )
                &&& forall|i: int| #[trigger]
                    last_setting(set, i) ==> result[text::lowered(set[i].0)] == set[i].1
                &&& forall|name: Seq<char>| #[trigger]
                    result.contains_key(name) ==> exists|i: int|
                        last_setting(set, i) && text::lowered(#[trigger] set[i].0) == name
            }
        }),
{
    let plan = handshake::plan_given(config, refusal)->Ok_0;
    let result = plan.headers_once_set();
    let set = config.custom_headers;
    let list = plan.headers;
    if set.len() == 0 {
        assert(list.drop_last() =~= Seq::empty());
        reveal_with_fuel(handshake::header_map, 2);
        assert(result =~= map!["authorization"@ => handshake::bearer(plan.api_key)]);
    } else {
        law_first_fault_decides(set);
        law_last_header_counts(list);
        assert forall|i: int| 0 <= i < set.len() implies result.contains_key(
            text::lowered((#[trigger] set[i]).0),
        ) by {
            assert(list[i].0 == text::lowered(set[i].0));
        }
        assert forall|i: int| #[trigger] last_setting(set, i) implies result[text::lowered(
            set[i].0,
        )] == set[i].1 by {
            let name = text::lowered(set[i].0);
            assert(list[i] == (name, set[i].1));
            assert(result.contains_key(list[i].0));
            let k = choose|k: int| last_of_name(list, name, k) && result[name] == list[k].1;
            assert(list[k].0 == text::lowered(set[k].0));
            assert(k == i);
        }
        assert forall|name: Seq<char>| #[trigger] result.contains_key(name) implies exists|
            i: int,
        |
            last_setting(set, i) && text::lowered(#[trigger] set[i].0) == name by {
            let k = choose|k: int| last_of_name(list, name, k) && result[name] == list[k].1;
            assert(list[k].0 == text::lowered(set[k].0));
            assert forall|j: int| k < j < set.len() implies text::lowered((#[trigger] set[j]).0)
                != text::lowered(set[k].0) by {
                assert(list[j].0 == text::lowered(set[j].0));
            }
            assert(last_setting(set, k));
        }
    }
}

/// Any number of frames without events, on a session with nothing queued, changes nothing and
/// gives nothing.
pub proof fn law_silent_run_changes_nothing(s: SessionView, steps: Seq<Step>)
    requires
        s.pending_events.len() == 0,
        forall|i: int| 0 <= i < steps.len() ==> silent(s, #[trigger] steps[i]),
    ensures
        after_all(s, steps) == s,
        made(s, steps) == Seq::<EventView>::empty(),
        given(s, steps) == Seq::<EventView>::empty(),
    decreases steps.len(),
{
    if steps.len() > 0 {
        let before = steps.drop_last();
        assert forall|i: int| 0 <= i < before.len() implies silent(s, #[trigger] before[i]) by {
            assert(silent(s, steps[i]));
        }
        law_silent_run_changes_nothing(s, before);
        assert(silent(s, steps[steps.len() - 1]));
        if let Step::Receive(incoming) = steps.last() {
            law_silent_frames_change_nothing(s, incoming);
        }
        assert(made(s, steps) =~= Seq::empty());
        assert(given(s, steps) =~= Seq::empty());
    }
}

/// Whether a step brings a frame that gives no event.
pub open spec fn silent(s: SessionView, step: Step) -> bool {
    step matches Step::Receive(incoming) && s.incoming_events(incoming) == Ok::<
        Seq<EventView>,
        ErrorView,
    >(Seq::empty())
}

/// A whole run, from opening to the end of the connection. The caller gets the `Connected` event
/// first and then, in their order, the events of the run: one `Final` among them, the end as the
/// last. The transcript is what was said.
pub proof fn law_whole_run(s: SessionView, steps: Seq<Step>, end: IncomingView)
    requires
        end is Close || end is Ended,
    ensures
        ({
            let start = s.closed().opened().configured();
            let run = steps.push(Step::Receive(end));
            &&& given(start, run) + after_all(start, run).pending_events == seq![
                EventView::Connected,
            ] + made(start, run)
            &&& finals(made(start, run)) == 1
            &&& made(start, run).last() is Closed
            &&& after_all(start, run).final_text == said(steps)
        }),
{
    let start = s.closed().opened().configured();
    let run = steps.push(Step::Receive(end));
    law_reopened_is_new(s);
    law_events_keep_their_order(start, run);
    law_end_gives_transcript(start, steps, end);
    law_transcript_is_what_was_said(start, run);
    assert(run.drop_last() =~= steps);
    assert(start.final_text + said(run) =~= said(steps));
}

/// ASCII letter case does not matter in the language of the settings.
pub proof fn law_language_case_is_ignored(a: Seq<char>, b: Seq<char>)
    requires
        text::lowered(a) == text::lowered(b),
    ensures
        message::hints_for(Some(a)) == message::hints_for(Some(b)),
{
    lemma_hints_of_lowered(a);
    lemma_hints_of_lowered(b);
}

/// White space around the language of the settings does not matter.
pub proof fn law_language_padding_is_ignored(
    before: Seq<char>,
    language: Seq<char>,
    after: Seq<char>,
)
    requires
        forall|i: int| 0 <= i < before.len() ==> text::white_space(#[trigger] before[i]),
        forall|i: int| 0 <= i < after.len() ==> text::white_space(#[trigger] after[i]),
    ensures
        message::hints_for(Some(before + language + after)) == message::hints_for(Some(language)),
{
    assert(before + language + after =~= before + (language + after));
    lemma_leading_space(before, language + after);
    lemma_trailing_space(language, after);
}

proof fn lemma_hints_of_lowered(language: Seq<char>)
    ensures
        message::hints_for(Some(text::lowered(language))) == message::hints_for(Some(language)),
{
    let tag = text::trimmed(language);
    lemma_start_of_lowered(language);
    lemma_end_of_lowered(text::trimmed_start(language));
    lemma_primary_of_lowered(tag);
    assert(text::lowered(text::lowered(tag)) =~= text::lowered(tag));
    let primary = message::primary_subtag(tag);
    assert(text::lowered(text::lowered(primary)) =~= text::lowered(primary));
}

proof fn lemma_start_of_lowered(s: Seq<char>)
    ensures
        text::trimmed_start(text::lowered(s)) == text::lowered(text::trimmed_start(s)),
    decreases s.len(),
{
    if s.len() > 0 && text::white_space(s[0]) {
        let rest = s.subrange(1, s.len() as int);
        lemma_start_of_lowered(rest);
        assert(text::lowered(s).subrange(1, s.len() as int) =~= text::lowered(rest));
    }
}

proof fn lemma_end_of_lowered(s: Seq<char>)
    ensures
        text::trimmed_end(text::lowered(s)) == text::lowered(text::trimmed_end(s)),
    decreases s.len(),
{
    if s.len() > 0 && text::white_space(s.last()) {
        lemma_end_of_lowered(s.drop_last());
        assert(text::lowered(s).drop_last() =~= text::lowered(s.drop_last()));
    }
}

proof fn lemma_primary_of_lowered(tag: Seq<char>)
    ensures
        message::primary_subtag(text::lowered(tag)) == text::lowered(message::primary_subtag(tag)),
    decreases tag.len(),
{
    if tag.len() == 0 || message::subtag_separator(tag[0]) {
        assert(message::primary_subtag(text::lowered(tag)) =~= text::lowered(
            message::primary_subtag(tag),
        ));
    } else {
        let rest = tag.subrange(1, tag.len() as int);
        lemma_primary_of_lowered(rest);
        assert(text::lowered(tag).subrange(1, tag.len() as int) =~= text::lowered(rest));
        assert(text::lowered(seq![tag[0]] + message::primary_subtag(rest)) =~= seq![
            text::lower_char(tag[0]),
        ] + text::lowered(message::primary_subtag(rest)));
    }
}

proof fn lemma_leading_space(space: Seq<char>, s: Seq<char>)
    requires
        forall|i: int| 0 <= i < space.len() ==> text::white_space(#[trigger] space[i]),
    ensures
        text::trimmed_start(space + s) == text::trimmed_start(s),
    decreases space.len(),
{
    if space.len() == 0 {
        assert(space + s =~= s);
    } else {
        let rest = space.subrange(1, space.len() as int);
        assert(text::white_space(space[0]));
        assert forall|i: int| 0 <= i < rest.len() implies text::white_space(#[trigger] rest[i]) by {
            assert(text::white_space(space[i + 1]));
        }
        lemma_leading_space(rest, s);
        assert((space + s).subrange(1, (space + s).len() as int) =~= rest + s);
    }
}

proof fn lemma_trailing_space(s: Seq<char>, space: Seq<char>)
    requires
        forall|i: int| 0 <= i < space.len() ==> text::white_space(#[trigger] space[i]),
    ensures
        text::trimmed(s + space) == text::trimmed(s),
    decreases s.len(),
{
    if s.len() > 0 && text::white_space(s[0]) {
        let rest = s.subrange(1, s.len() as int);
        lemma_trailing_space(rest, space);
        assert((s + space).subrange(1, (s + space).len() as int) =~= rest + space);
    } else if s.len() == 0 {
        assert(s + space =~= space + s);
        lemma_leading_space(space, s);
    } else {
        lemma_end_space(s, space);
    }
}

proof fn lemma_end_space(s: Seq<char>, space: Seq<char>)
    requires
        forall|i: int| 0 <= i < space.len() ==> text::white_space(#[trigger] space[i]),
    ensures
        text::trimmed_end(s + space) == text::trimmed_end(s),
    decreases space.len(),
{
    if space.len() == 0 {
        assert(s + space =~= s);
    } else {
        let rest = space.drop_last();
        assert(text::white_space(space[space.len() - 1]));
        assert forall|i: int| 0 <= i < rest.len() implies text::white_space(#[trigger] rest[i]) by {
            assert(text::white_space(space[i]));
        }
        lemma_end_space(s, rest);
        assert((s + space).drop_last() =~= s + rest);
    }
}

} // verus!
