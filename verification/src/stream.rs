//! Translation of backend stream events into response chunks.

use vstd::prelude::*;

use crate::error::AILanguageModelError;
use crate::types::{AILanguageModelResponsChunk, ResponseChunkView};

verus! {

/// Model of one backend candidate of a streamed event.
pub struct CandidateView {
    pub text: Option<Seq<char>>,
    pub finish_reason: Option<Seq<char>>,
}

/// One alternative completion carried by a streamed backend event.
#[derive(Debug, Clone, PartialEq)]
pub struct GeminiCandidate {
    pub text: Option<String>,
    pub finish_reason: Option<String>,
}

impl DeepView for GeminiCandidate {
    type V = CandidateView;

    open spec fn deep_view(&self) -> CandidateView {
        CandidateView { text: self.text.deep_view(), finish_reason: self.finish_reason.deep_view() }
    }
}

/// Model of one item of the backend's event stream.
pub enum StreamEventView {
    Closed,
    TransportError(Seq<char>),
    Data(Seq<CandidateView>),
}

/// One item of the backend's event stream, as the adapter sees it: a
/// graceful end-of-stream signal, a transport failure, or a data event.
#[derive(Debug, Clone, PartialEq)]
pub enum GeminiStreamEvent {
    Closed,
    TransportError(String),
    Data(Vec<GeminiCandidate>),
}

impl DeepView for GeminiStreamEvent {
    type V = StreamEventView;

    open spec fn deep_view(&self) -> StreamEventView {
        match self {
            GeminiStreamEvent::Closed => StreamEventView::Closed,
            GeminiStreamEvent::TransportError(m) => StreamEventView::TransportError(m@),
            GeminiStreamEvent::Data(cands) => StreamEventView::Data(cands.deep_view()),
        }
    }
}

/// What one backend event contributes to the chunk sequence: nothing, a
/// chunk, or a provider error carrying the given message.
pub open spec fn translate_event_spec(e: StreamEventView) -> Option<
    Result<ResponseChunkView, Seq<char>>,
> {
    match e {
        StreamEventView::Closed => Some(
            Ok(ResponseChunkView { text: None, finished: true }),
        ),
        StreamEventView::TransportError(m) => Some(Err(m)),
        StreamEventView::Data(cands) => {
            if cands.len() == 0 {
                None
            } else {
                Some(
                    Ok(
                        ResponseChunkView {
                            text: cands[0].text,
                            finished: cands[0].finish_reason is Some,
                        },
                    ),
                )
            }
        },
    }
}

/// A step after which the consumer must stop reading: an error, or a chunk
/// flagged as final.
pub open spec fn chunk_step_is_terminal(s: Result<ResponseChunkView, Seq<char>>) -> bool {
    match s {
        Ok(c) => c.finished,
        Err(_) => true,
    }
}

/// The model of one delivered step: the chunk itself, or the provider-error
/// message.
pub open spec fn step_view(r: Result<AILanguageModelResponsChunk, AILanguageModelError>) -> Result<
    ResponseChunkView,
    Seq<char>,
> {
    match r {
        Ok(c) => Ok(c.deep_view()),
        Err(e) => Err(e.spec_message()),
    }
}

/// How an executable translation step must relate to [`translate_event_spec`]:
/// same presence, same chunk, and errors as provider errors.
pub open spec fn step_result_matches(
    s: Option<Result<ResponseChunkView, Seq<char>>>,
    r: Option<Result<AILanguageModelResponsChunk, AILanguageModelError>>,
) -> bool {
    match (s, r) {
        (None, None) => true,
        (Some(sv), Some(rv)) => {
            &&& step_view(rv) == sv
            &&& rv matches Err(e) ==> e is ProviderError
        },
        _ => false,
    }
}

/// Translate one backend stream event.
///
/// A graceful close becomes one final chunk without text; a transport error
/// becomes a provider error; an event without candidates is dropped; an
/// event with candidates yields the first candidate's text, final exactly
/// when that candidate carries a finish reason.
pub fn translate_stream_event(e: &GeminiStreamEvent) -> (r: Option<
    Result<AILanguageModelResponsChunk, AILanguageModelError>,
>)
    ensures
        step_result_matches(translate_event_spec(e.deep_view()), r),
{
    match e {
        GeminiStreamEvent::Closed => Some(
            Ok(AILanguageModelResponsChunk { text: None, finished: true }),
        ),
        GeminiStreamEvent::TransportError(m) => Some(
            Err(AILanguageModelError::ProviderError(m.clone())),
        ),
        GeminiStreamEvent::Data(cands) => {
            if cands.len() == 0 {
                None
            } else {
                let c = &cands[0];
                let text = match &c.text {
                    Some(t) => Some(t.clone()),
                    None => None,
                };
                Some(Ok(AILanguageModelResponsChunk { text, finished: c.finish_reason.is_some() }))
            }
        },
    }
}

/// The chunk sequence a consumer observes for a given event sequence: events
/// are translated in order, dropped events contribute nothing, and the
/// sequence ends at the first terminal step.
pub open spec fn translate_events(events: Seq<StreamEventView>) -> Seq<
    Result<ResponseChunkView, Seq<char>>,
>
    decreases events.len(),
{
    if events.len() == 0 {
        Seq::empty()
    } else {
        match translate_event_spec(events[0]) {
            None => translate_events(events.drop_first()),
            Some(step) => {
                if chunk_step_is_terminal(step) {
                    seq![step]
                } else {
                    seq![step] + translate_events(events.drop_first())
                }
            },
        }
    }
}

/// A transport-level close yields exactly one final chunk without text, and
/// nothing after it, whatever events follow.
pub proof fn lemma_stream_closed_single_final_chunk(rest: Seq<StreamEventView>)
    ensures
        translate_events(seq![StreamEventView::Closed] + rest) == seq![
            Ok::<ResponseChunkView, Seq<char>>(ResponseChunkView { text: None, finished: true }),
        ],
{
    let s = seq![StreamEventView::Closed] + rest;
    assert(s[0] == StreamEventView::Closed);
    assert(translate_events(s) =~= seq![
        Ok::<ResponseChunkView, Seq<char>>(ResponseChunkView { text: None, finished: true }),
    ]);
}

/// An event without candidates yields no chunk and does not terminate the
/// sequence: the translation continues with the remaining events.
pub proof fn lemma_empty_event_dropped(rest: Seq<StreamEventView>)
    ensures
        translate_events(seq![StreamEventView::Data(Seq::empty())] + rest) == translate_events(
            rest,
        ),
{
    let s = seq![StreamEventView::Data(Seq::empty())] + rest;
    assert(s[0] == StreamEventView::Data(Seq::<CandidateView>::empty()));
    assert(s.drop_first() =~= rest);
}

/// Drain a whole event sequence into the chunks a consumer observes,
/// stopping after the first terminal step, as the forwarding loop of the
/// streaming endpoint does.
pub fn collect_chunks(events: &[GeminiStreamEvent]) -> (out: Vec<
    Result<AILanguageModelResponsChunk, AILanguageModelError>,
>)
    ensures
        out@.map_values(|r: Result<AILanguageModelResponsChunk, AILanguageModelError>| step_view(r))
            == translate_events(events.deep_view()),
        forall|k: int| 0 <= k < out@.len() && out@[k] is Err ==> out@[k]->Err_0 is ProviderError,
{
    let ghost ev = events.deep_view();
    let mut out: Vec<Result<AILanguageModelResponsChunk, AILanguageModelError>> = Vec::new();
    let mut i: usize = 0;
    let mut done = false;
    proof {
        assert(ev.skip(0) =~= ev);
    }
    while i < events.len() && !done
        invariant
            ev == events.deep_view(),
            i <= events.len(),
            translate_events(ev) == out@.map_values(
                |r: Result<AILanguageModelResponsChunk, AILanguageModelError>| step_view(r),
            ) + (if done {
                Seq::<Result<ResponseChunkView, Seq<char>>>::empty()
            } else {
                translate_events(ev.skip(i as int))
            }),
            forall|k: int| 0 <= k < out@.len() && out@[k] is Err ==> out@[k]->Err_0
                is ProviderError,
        decreases events.len() - i,
    {
        let ghost out0 = out@;
        proof {
            assert(ev.skip(i as int)[0] == ev[i as int]);
            assert(ev.skip(i as int).drop_first() =~= ev.skip(i as int + 1));
        }
        match translate_stream_event(&events[i]) {
            None => {},
            Some(step) => {
                let terminal = match &step {
                    Ok(c) => c.finished,
                    Err(_) => true,
                };
                out.push(step);
                proof {
                    assert(out@.map_values(
                        |r: Result<AILanguageModelResponsChunk, AILanguageModelError>| step_view(r),
                    ) =~= out0.map_values(
                        |r: Result<AILanguageModelResponsChunk, AILanguageModelError>| step_view(r),
                    ).push(step_view(out@.last())));
                }
                if terminal {
                    done = true;
                }
            },
        }
        i = i + 1;
    }
    proof {
        if !done {
            assert(ev.skip(events.deep_view().len() as int) =~= Seq::<StreamEventView>::empty());
        }
    }
    out
}

} // verus!
