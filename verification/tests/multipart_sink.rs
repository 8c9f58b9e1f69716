use fourree::multipart::{MultipartSink, SinkAction, SinkPhase, PART_SIZE_THRESHOLD};

const MIB: usize = 1024 * 1024;

fn batch(len: usize) -> Vec<u8> {
    vec![b'x'; len]
}

#[test]
fn threshold_is_five_mib() {
    assert_eq!(PART_SIZE_THRESHOLD, 5 * MIB);
}

#[test]
fn small_batches_accumulate_without_uploading() {
    let mut sink = MultipartSink::new();
    for _ in 0..5 {
        let a = sink.on_batch(batch(MIB));
        assert!(matches!(a, SinkAction::Receive));
    }
    assert!(matches!(sink.phase, SinkPhase::Receiving));
}

#[test]
fn twelve_mib_gives_three_parts_completed_in_ascending_order() {
    // Two batches just over 5 MiB each and a final 1.5 MiB one: 12 MiB in
    // all, flushed as two full parts and one final partial part.
    let mut sink = MultipartSink::new();

    let a = sink.on_batch(batch(5 * MIB + 256 * 1024));
    let first = match a {
        SinkAction::UploadPart { part_number, data } => {
            assert_eq!(part_number, 1);
            data.len()
        },
        _ => panic!("expected the first part to flush"),
    };
    assert!(first >= 5 * MIB);
    assert!(matches!(sink.on_part_uploaded(Some("tag-1".to_string())), SinkAction::Receive));

    let a = sink.on_batch(batch(5 * MIB + 256 * 1024));
    let second = match a {
        SinkAction::UploadPart { part_number, data } => {
            assert_eq!(part_number, 2);
            data.len()
        },
        _ => panic!("expected the second part to flush"),
    };
    assert!(second >= 5 * MIB);
    assert!(matches!(sink.on_part_uploaded(Some("tag-2".to_string())), SinkAction::Receive));

    assert!(matches!(sink.on_batch(batch(3 * MIB / 2)), SinkAction::Receive));
    let a = sink.on_end();
    let third = match a {
        SinkAction::UploadPart { part_number, data } => {
            assert_eq!(part_number, 3);
            data.len()
        },
        _ => panic!("expected the final partial part to flush"),
    };
    assert!(third < 5 * MIB && third > 0);
    assert_eq!(first + second + third, 12 * MIB);

    match sink.on_part_uploaded(Some("tag-3".to_string())) {
        SinkAction::Complete { parts } => {
            assert_eq!(parts.len(), 3);
            for (i, p) in parts.iter().enumerate() {
                assert_eq!(p.part_number as usize, i + 1);
                assert_eq!(p.e_tag.as_deref(), Some(format!("tag-{}", i + 1).as_str()));
            }
        },
        _ => panic!("expected a completion request after the final part"),
    }
    assert!(matches!(sink.on_complete_ok(), SinkAction::Finished));
    assert!(matches!(sink.phase, SinkPhase::Done));
}

#[test]
fn failed_part_aborts_once_and_never_completes() {
    let mut sink = MultipartSink::new();
    let mut uploads = 0;
    let mut aborts = 0;
    let mut completes = 0;

    match sink.on_batch(batch(6 * MIB)) {
        SinkAction::UploadPart { part_number, .. } => {
            uploads += 1;
            assert_eq!(part_number, 1);
        },
        _ => panic!("expected the first part to flush"),
    }
    assert!(matches!(sink.on_part_uploaded(Some("tag-1".to_string())), SinkAction::Receive));

    match sink.on_batch(batch(6 * MIB)) {
        SinkAction::UploadPart { part_number, .. } => {
            uploads += 1;
            assert_eq!(part_number, 2);
        },
        _ => panic!("expected the second part to flush"),
    }
    // The store rejects part 2: exactly one abort, no completion.
    match sink.on_part_failed() {
        SinkAction::Abort => aborts += 1,
        SinkAction::Complete { .. } => completes += 1,
        _ => {},
    }
    assert_eq!(uploads, 2);
    assert_eq!(aborts, 1);
    assert_eq!(completes, 0);
    assert!(matches!(sink.phase, SinkPhase::Failed));
}

#[test]
fn end_of_stream_flushes_even_an_empty_buffer() {
    let mut sink = MultipartSink::new();
    match sink.on_end() {
        SinkAction::UploadPart { part_number, data } => {
            assert_eq!(part_number, 1);
            assert!(data.is_empty());
        },
        _ => panic!("expected a final flush"),
    }
    match sink.on_part_uploaded(None) {
        SinkAction::Complete { parts } => {
            assert_eq!(parts.len(), 1);
            assert_eq!(parts[0].part_number, 1);
            assert!(parts[0].e_tag.is_none());
        },
        _ => panic!("expected a completion request"),
    }
}

#[test]
fn failed_completion_aborts() {
    let mut sink = MultipartSink::new();
    assert!(matches!(sink.on_end(), SinkAction::UploadPart { .. }));
    assert!(matches!(sink.on_part_uploaded(None), SinkAction::Complete { .. }));
    assert!(matches!(sink.on_complete_failed(), SinkAction::Abort));
    assert!(matches!(sink.phase, SinkPhase::Failed));
}
