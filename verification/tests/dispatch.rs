use rpc_router::substream_step;
use rpc_router::Body;
use rpc_router::SubstreamAction;
use rpc_router::SubstreamEvent;
use rpc_router::SubstreamState;

#[test]
fn happy_path_streams_every_chunk_then_closes() {
    let (s, a) = substream_step(SubstreamState::Negotiated, SubstreamEvent::Accepted);
    assert!(matches!(s, SubstreamState::Resolving));
    assert!(matches!(a, SubstreamAction::Resolve));

    let (s, a) = substream_step(s, SubstreamEvent::ResolveOk);
    assert!(matches!(s, SubstreamState::Processing));
    assert!(matches!(a, SubstreamAction::ReadRequest));

    let (s, a) = substream_step(s, SubstreamEvent::RequestReceived);
    assert!(matches!(s, SubstreamState::Processing));
    assert!(matches!(a, SubstreamAction::InvokeHandler));

    let (mut s, a) = substream_step(s, SubstreamEvent::ResponseReady { chunks: 3 });
    assert!(matches!(s, SubstreamState::Streaming { remaining: 3 }));
    assert!(matches!(a, SubstreamAction::WriteStatus));

    // three completed writes emit the three chunks, one per write
    for expected_left in [2u64, 1, 0] {
        let (s2, a) = substream_step(s, SubstreamEvent::WriteCompleted);
        assert!(matches!(a, SubstreamAction::WriteChunk));
        match s2 {
            SubstreamState::Streaming { remaining } => assert_eq!(remaining, expected_left),
            _ => panic!("left Streaming too early"),
        }
        s = s2;
    }

    // the final completed write closes the substream
    let (s, a) = substream_step(s, SubstreamEvent::WriteCompleted);
    assert!(matches!(s, SubstreamState::Closed));
    assert!(matches!(a, SubstreamAction::CloseSubstream));
}

#[test]
fn resolution_failure_writes_error_then_closes() {
    let (s, _) = substream_step(SubstreamState::Negotiated, SubstreamEvent::Accepted);
    let (s, a) = substream_step(s, SubstreamEvent::ResolveNotFound);
    assert!(matches!(s, SubstreamState::RespondingError));
    assert!(matches!(a, SubstreamAction::WriteErrorResponse));
    let (s, a) = substream_step(s, SubstreamEvent::WriteCompleted);
    assert!(matches!(s, SubstreamState::Closed));
    assert!(matches!(a, SubstreamAction::CloseSubstream));
}

#[test]
fn factory_failure_writes_error_then_closes() {
    let (s, _) = substream_step(SubstreamState::Negotiated, SubstreamEvent::Accepted);
    let (s, a) = substream_step(s, SubstreamEvent::FactoryFailed);
    assert!(matches!(s, SubstreamState::RespondingError));
    assert!(matches!(a, SubstreamAction::WriteErrorResponse));
    let (s, _) = substream_step(s, SubstreamEvent::WriteCompleted);
    assert!(matches!(s, SubstreamState::Closed));
}

#[test]
fn transport_failure_aborts_any_live_state() {
    for s in [
        SubstreamState::Negotiated,
        SubstreamState::Resolving,
        SubstreamState::Processing,
        SubstreamState::RespondingError,
        SubstreamState::Streaming { remaining: 5 },
    ] {
        let (s2, a) = substream_step(s, SubstreamEvent::TransportFailed);
        assert!(matches!(s2, SubstreamState::Aborted));
        assert!(matches!(a, SubstreamAction::TearDown));
    }
}

#[test]
fn terminal_states_absorb_every_event() {
    for s in [SubstreamState::Closed, SubstreamState::Aborted] {
        for e in [
            SubstreamEvent::Accepted,
            SubstreamEvent::ResolveOk,
            SubstreamEvent::WriteCompleted,
            SubstreamEvent::TransportFailed,
        ] {
            let (s2, a) = substream_step(s, e);
            assert!(matches!(a, SubstreamAction::NoAction));
            match (s, s2) {
                (SubstreamState::Closed, SubstreamState::Closed) => {},
                (SubstreamState::Aborted, SubstreamState::Aborted) => {},
                _ => panic!("terminal state moved"),
            }
        }
    }
}

#[test]
fn out_of_protocol_event_tears_down() {
    let (s, a) = substream_step(SubstreamState::Negotiated, SubstreamEvent::WriteCompleted);
    assert!(matches!(s, SubstreamState::Aborted));
    assert!(matches!(a, SubstreamAction::TearDown));
}

#[test]
fn body_streams_k_chunks_then_clean_end() {
    let chunks: Vec<Vec<u8>> = vec![b"one".to_vec(), b"two".to_vec(), b"three".to_vec()];
    let mut body = Body::from_chunks(chunks.clone());
    assert_eq!(body.remaining_len(), 3);
    for expected in &chunks {
        assert_eq!(&body.next().unwrap(), expected);
    }
    // the end of the stream is stable: every further read is a clean None
    for _ in 0..4 {
        assert!(body.next().is_none());
        assert_eq!(body.remaining_len(), 0);
    }
}

#[test]
fn empty_body_ends_immediately() {
    let mut body = Body::empty();
    assert_eq!(body.remaining_len(), 0);
    assert!(body.next().is_none());
    assert!(body.next().is_none());
}
