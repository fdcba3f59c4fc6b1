use frame_decoder::chain::decode_all;
use frame_decoder::chain::next_frame;
use frame_decoder::codec::BytesStreamFuture;
use frame_decoder::codec::PollResult;
use frame_decoder::line_codec::CodecError;
use frame_decoder::line_codec::LineDecoder;
use frame_decoder::script::ScriptEvent;
use frame_decoder::script::ScriptedSource;
use frame_decoder::source::BytesStream;

fn stream(script: Vec<ScriptEvent>) -> BytesStream<ScriptedSource> {
    BytesStream::new(ScriptedSource::new(script))
}

#[test]
fn one_frame_across_chunks() {
    // Ready(b"AB"), Ready(b"C\n"), End: one operation yields "ABC" and a
    // state with an empty buffer whose source has not yet ended.
    let bs = stream(vec![
        ScriptEvent::Chunk(b"AB".to_vec()),
        ScriptEvent::Chunk(b"C\n".to_vec()),
        ScriptEvent::Stop,
    ]);
    let mut fut = BytesStreamFuture::new(bs, LineDecoder { delim: b'\n' });
    match fut.poll() {
        PollResult::Done(item, bs) => {
            assert_eq!(item, Some(b"ABC".to_vec()));
            assert!(bs.bytes.is_empty());
            assert!(!bs.stream_done);
            // A second operation over that state observes End and
            // finishes with no item on the empty buffer.
            let mut fut2 = BytesStreamFuture::new(bs, LineDecoder { delim: b'\n' });
            match fut2.poll() {
                PollResult::Done(item2, bs2) => {
                    assert_eq!(item2, None);
                    assert!(bs2.bytes.is_empty());
                    assert!(bs2.stream_done);
                },
                _ => panic!("second operation should complete with no item"),
            }
        },
        _ => panic!("first operation should complete with an item"),
    }
}

#[test]
fn truncated_tail_is_an_error() {
    // Ready(b"AB"), End: the delimiter never arrives, finalization
    // reports a truncation, and the bytes stay in the returned state.
    let bs = stream(vec![ScriptEvent::Chunk(b"AB".to_vec()), ScriptEvent::Stop]);
    let mut fut = BytesStreamFuture::new(bs, LineDecoder { delim: b'\n' });
    match fut.poll() {
        PollResult::Failed(e, bs) => {
            assert_eq!(e, CodecError::Truncated);
            assert_eq!(bs.bytes, b"AB".to_vec());
            assert!(bs.stream_done);
        },
        _ => panic!("operation should fail with a truncation"),
    }
}

#[test]
fn suspension_then_resume() {
    let bs = stream(vec![
        ScriptEvent::Chunk(b"A".to_vec()),
        ScriptEvent::Wait,
        ScriptEvent::Chunk(b"B\n".to_vec()),
        ScriptEvent::Stop,
    ]);
    let mut fut = BytesStreamFuture::new(bs, LineDecoder { delim: b'\n' });
    match fut.poll() {
        PollResult::NotReady => {},
        _ => panic!("operation should suspend on the pending source"),
    }
    match fut.poll() {
        PollResult::Done(item, _) => assert_eq!(item, Some(b"AB".to_vec())),
        _ => panic!("resumed operation should complete with the item"),
    }
}

#[test]
fn suspension_is_transparent() {
    let with_waits = vec![
        ScriptEvent::Wait,
        ScriptEvent::Chunk(b"one\ntw".to_vec()),
        ScriptEvent::Wait,
        ScriptEvent::Wait,
        ScriptEvent::Chunk(b"o\n".to_vec()),
        ScriptEvent::Stop,
    ];
    let without_waits = vec![
        ScriptEvent::Chunk(b"one\ntw".to_vec()),
        ScriptEvent::Chunk(b"o\n".to_vec()),
        ScriptEvent::Stop,
    ];
    let a = decode_all(ScriptedSource::new(with_waits), b'\n');
    let b = decode_all(ScriptedSource::new(without_waits), b'\n');
    assert_eq!(a.unwrap(), b.unwrap());
}

#[test]
fn decode_all_recovers_items() {
    let source = ScriptedSource::new(vec![
        ScriptEvent::Chunk(b"a\nb".to_vec()),
        ScriptEvent::Chunk(b"\n".to_vec()),
        ScriptEvent::Stop,
    ]);
    let items = decode_all(source, b'\n').unwrap();
    assert_eq!(items, vec![b"a".to_vec(), b"b".to_vec()]);
}

#[test]
fn decode_all_empty_source() {
    let items = decode_all(ScriptedSource::new(vec![]), b'\n').unwrap();
    assert!(items.is_empty());
    let items2 = decode_all(ScriptedSource::new(vec![ScriptEvent::Stop]), b'\n').unwrap();
    assert!(items2.is_empty());
}

#[test]
fn decode_all_reports_truncation() {
    let source = ScriptedSource::new(vec![
        ScriptEvent::Chunk(b"whole\npart".to_vec()),
        ScriptEvent::Stop,
    ]);
    assert_eq!(decode_all(source, b'\n'), Err(CodecError::Truncated));
}

#[test]
fn source_fault_carries_its_code() {
    let bs = stream(vec![ScriptEvent::Fault(7)]);
    let mut fut = BytesStreamFuture::new(bs, LineDecoder { delim: b'\n' });
    match fut.poll() {
        PollResult::Failed(e, bs) => {
            assert_eq!(e, CodecError::Source(7));
            assert!(bs.bytes.is_empty());
            assert!(!bs.stream_done);
        },
        _ => panic!("operation should fail with the source's error"),
    }
}

#[test]
fn chained_operations_share_the_state() {
    let bs = stream(vec![ScriptEvent::Chunk(b"x\ny\n".to_vec()), ScriptEvent::Stop]);
    let (item, bs) = next_frame(bs, b'\n').unwrap();
    assert_eq!(item, Some(b"x".to_vec()));
    assert_eq!(bs.bytes, b"y\n".to_vec());
    let (item, bs) = next_frame(bs, b'\n').unwrap();
    assert_eq!(item, Some(b"y".to_vec()));
    let (item, bs) = next_frame(bs, b'\n').unwrap();
    assert_eq!(item, None);
    assert!(bs.stream_done);
}

#[test]
fn end_is_idempotent_across_operations() {
    // A fresh operation over an already-ended state tolerates the end
    // being observed again.
    let bs = stream(vec![ScriptEvent::Stop, ScriptEvent::Stop]);
    let (item, bs) = next_frame(bs, b'\n').unwrap();
    assert_eq!(item, None);
    let (item, bs) = next_frame(bs, b'\n').unwrap();
    assert_eq!(item, None);
    assert!(bs.stream_done);
}

#[test]
fn leftover_bytes_seed_the_next_operation() {
    // A state that already holds buffered bytes decodes them without
    // pulling a chunk first.
    let mut bs = stream(vec![ScriptEvent::Stop]);
    bs.bytes = b"seed\n".to_vec();
    let (item, bs) = next_frame(bs, b'\n').unwrap();
    assert_eq!(item, Some(b"seed".to_vec()));
    assert!(bs.bytes.is_empty());
    assert!(!bs.stream_done);
}
