use built_in_hybrid_server::error::AILanguageModelError;
use built_in_hybrid_server::stream::GeminiCandidate;
use built_in_hybrid_server::stream::GeminiStreamEvent;
use built_in_hybrid_server::stream::collect_chunks;
use built_in_hybrid_server::stream::translate_stream_event;
use built_in_hybrid_server::types::AILanguageModelResponsChunk;

fn candidate(text: Option<&str>, finish_reason: Option<&str>) -> GeminiCandidate {
    GeminiCandidate {
        text: text.map(|t| t.to_string()),
        finish_reason: finish_reason.map(|r| r.to_string()),
    }
}

#[test]
fn stream_close_becomes_one_final_chunk() {
    let step = translate_stream_event(&GeminiStreamEvent::Closed).unwrap().unwrap();
    assert_eq!(
        step,
        AILanguageModelResponsChunk {
            text: None,
            finished: true,
        }
    );

    // and nothing is delivered after it
    let chunks = collect_chunks(&[
        GeminiStreamEvent::Closed,
        GeminiStreamEvent::Data(vec![candidate(Some("late"), None)]),
    ]);
    assert_eq!(chunks.len(), 1);
    assert_eq!(
        *chunks[0].as_ref().unwrap(),
        AILanguageModelResponsChunk {
            text: None,
            finished: true,
        }
    );
}

#[test]
fn empty_event_is_dropped_and_does_not_terminate() {
    assert!(translate_stream_event(&GeminiStreamEvent::Data(vec![])).is_none());

    let chunks = collect_chunks(&[
        GeminiStreamEvent::Data(vec![]),
        GeminiStreamEvent::Data(vec![candidate(Some("still going"), None)]),
    ]);
    assert_eq!(chunks.len(), 1);
    assert_eq!(
        *chunks[0].as_ref().unwrap(),
        AILanguageModelResponsChunk {
            text: Some("still going".to_string()),
            finished: false,
        }
    );
}

#[test]
fn data_event_yields_first_candidate() {
    let event = GeminiStreamEvent::Data(vec![
        candidate(Some("one"), Some("STOP")),
        candidate(Some("two"), None),
    ]);
    let step = translate_stream_event(&event).unwrap().unwrap();
    assert_eq!(
        step,
        AILanguageModelResponsChunk {
            text: Some("one".to_string()),
            finished: true,
        }
    );
}

#[test]
fn transport_error_becomes_provider_error_and_terminates() {
    let step = translate_stream_event(&GeminiStreamEvent::TransportError("boom".to_string()))
        .unwrap();
    let err = step.unwrap_err();
    assert!(matches!(err, AILanguageModelError::ProviderError(ref m) if m == "boom"));

    let chunks = collect_chunks(&[
        GeminiStreamEvent::Data(vec![candidate(Some("a"), None)]),
        GeminiStreamEvent::TransportError("boom".to_string()),
        GeminiStreamEvent::Data(vec![candidate(Some("b"), None)]),
    ]);
    assert_eq!(chunks.len(), 2);
    assert!(chunks[0].is_ok());
    assert!(chunks[1].is_err());
}

#[test]
fn finished_candidate_terminates_the_stream() {
    let chunks = collect_chunks(&[
        GeminiStreamEvent::Data(vec![candidate(Some("a"), None)]),
        GeminiStreamEvent::Data(vec![candidate(Some("b"), Some("STOP"))]),
        GeminiStreamEvent::Data(vec![candidate(Some("c"), None)]),
    ]);
    assert_eq!(chunks.len(), 2);
    assert_eq!(
        *chunks[1].as_ref().unwrap(),
        AILanguageModelResponsChunk {
            text: Some("b".to_string()),
            finished: true,
        }
    );
}
