use farmer_components::recovery::{
    reconstruction_outcome, Admission, PieceRecovery, SegmentReconstructionError,
    PARALLELISM_LEVEL,
};
use farmer_components::segment::{NUM_PIECES, NUM_RAW_RECORDS};

fn piece_bytes(piece_index: u64) -> Vec<u8> {
    piece_index.to_le_bytes().to_vec()
}

/// Runs every task one after the other, each retrieval completing at once, and
/// returns how many retrieval calls were made.
fn run_sequentially(
    recovery: &mut PieceRecovery<Vec<u8>>,
    available: &dyn Fn(u64) -> bool,
) -> usize {
    let mut calls = 0;
    for piece_index in recovery.piece_indexes() {
        match recovery.enter_gate(piece_index) {
            Admission::Fetch => {
                calls += 1;
                let piece = if available(piece_index) {
                    Some(piece_bytes(piece_index))
                } else {
                    None
                };
                assert!(recovery.complete(piece_index, piece));
            }
            Admission::Skip => {}
            Admission::Wait => panic!("no retrieval is in flight"),
        }
    }
    calls
}

#[test]
fn recovery_starts_empty() {
    let recovery = PieceRecovery::<Vec<u8>>::with_default_parallelism(300);
    assert_eq!(recovery.missing_piece_index(), 300);
    assert_eq!(recovery.segment_index(), 1);
    assert_eq!(recovery.position(), 44);
    assert_eq!(recovery.parallelism(), PARALLELISM_LEVEL);
    assert_eq!(PARALLELISM_LEVEL, 20);
    assert_eq!(recovery.acquired(), 0);
    assert_eq!(recovery.in_flight(), 0);
    assert!(!recovery.has_enough());
    let indexes = recovery.piece_indexes();
    assert_eq!(indexes.len(), NUM_PIECES);
    assert_eq!(indexes[0], 256);
    assert_eq!(indexes[NUM_RAW_RECORDS], 257);
}

#[test]
fn round_trip_keeps_every_other_piece_at_its_position() {
    let missing = 256 + 10;
    let mut recovery = PieceRecovery::new(missing, PARALLELISM_LEVEL);
    let calls = run_sequentially(&mut recovery, &|i| i != missing);
    // Source pieces come first; all of them but the missing one are available,
    // so one parity piece completes the threshold and the rest are skipped.
    assert_eq!(calls, NUM_RAW_RECORDS + 1);
    assert_eq!(recovery.acquired(), NUM_RAW_RECORDS);
    let position = recovery.position() as usize;
    assert_eq!(position, 10);
    let pieces = match recovery.into_reconstruction_input::<String>() {
        Ok(pieces) => pieces,
        Err(_) => panic!("enough pieces were acquired"),
    };
    assert_eq!(pieces.len(), NUM_PIECES);
    assert!(pieces[position].is_none());
    for (p, piece) in pieces.iter().enumerate() {
        if let Some(piece) = piece {
            assert_eq!(piece, &piece_bytes(256 + p as u64));
        }
    }
    assert_eq!(pieces[1], Some(piece_bytes(257)));
    assert_eq!(pieces[3], None);
    // A reconstruction that hands back the original piece is passed through as is.
    let outcome = reconstruction_outcome::<Vec<u8>, String>(Ok(piece_bytes(missing)));
    match outcome {
        Ok(piece) => assert_eq!(piece, piece_bytes(missing)),
        Err(_) => panic!("reconstruction succeeded"),
    }
}

#[test]
fn too_few_pieces_is_not_enough() {
    let missing = 5;
    let mut recovery = PieceRecovery::new(missing, PARALLELISM_LEVEL);
    // Only positions below 127 other than the missing one are obtainable.
    let calls = run_sequentially(&mut recovery, &|i| i < 127 && i != missing);
    assert_eq!(calls, NUM_PIECES);
    assert_eq!(recovery.acquired(), 126);
    match recovery.into_reconstruction_input::<String>() {
        Err(SegmentReconstructionError::NotEnoughPiecesAcquired) => {}
        _ => panic!("expected NotEnoughPiecesAcquired"),
    }
}

#[test]
fn nothing_available_is_not_enough() {
    let mut recovery = PieceRecovery::new(0, 3);
    let calls = run_sequentially(&mut recovery, &|_| false);
    assert_eq!(calls, NUM_PIECES);
    assert_eq!(recovery.acquired(), 0);
    assert!(matches!(
        recovery.into_reconstruction_input::<String>(),
        Err(SegmentReconstructionError::NotEnoughPiecesAcquired)
    ));
}

#[test]
fn exactly_threshold_pieces_is_enough() {
    let mut recovery = PieceRecovery::new(1, PARALLELISM_LEVEL);
    // Only the source pieces are obtainable: exactly the threshold.
    let calls = run_sequentially(&mut recovery, &|i| i % 2 == 0);
    assert_eq!(calls, NUM_RAW_RECORDS);
    assert_eq!(recovery.acquired(), NUM_RAW_RECORDS);
    assert!(recovery.has_enough());
    assert!(recovery.into_reconstruction_input::<String>().is_ok());
}

#[test]
fn in_flight_never_exceeds_parallelism() {
    let parallelism = 4;
    let mut recovery = PieceRecovery::<Vec<u8>>::new(1000, parallelism);
    let indexes = recovery.piece_indexes();
    let mut outstanding: Vec<u64> = Vec::new();
    let mut max_seen = 0;
    let mut next = 0;
    while next < indexes.len() {
        match recovery.enter_gate(indexes[next]) {
            Admission::Fetch => {
                outstanding.push(indexes[next]);
                next += 1;
            }
            Admission::Skip => next += 1,
            Admission::Wait => {
                assert_eq!(outstanding.len(), parallelism);
                let done = outstanding.remove(0);
                assert!(recovery.complete(done, None));
            }
        }
        max_seen = max_seen.max(outstanding.len());
        assert_eq!(recovery.in_flight(), outstanding.len());
        assert!(recovery.in_flight() <= parallelism);
    }
    assert_eq!(max_seen, parallelism);
    for done in outstanding {
        assert!(recovery.complete(done, None));
    }
    assert_eq!(recovery.in_flight(), 0);
}

#[test]
fn no_retrieval_after_threshold() {
    let mut recovery = PieceRecovery::new(256 * 3, PARALLELISM_LEVEL);
    let indexes = recovery.piece_indexes();
    let mut calls = 0;
    for &piece_index in &indexes[..NUM_RAW_RECORDS] {
        assert_eq!(recovery.enter_gate(piece_index), Admission::Fetch);
        calls += 1;
        assert!(recovery.complete(piece_index, Some(piece_bytes(piece_index))));
    }
    assert!(recovery.has_enough());
    for &piece_index in &indexes[NUM_RAW_RECORDS..] {
        assert_eq!(recovery.enter_gate(piece_index), Admission::Skip);
    }
    assert_eq!(calls, NUM_RAW_RECORDS);
    assert_eq!(recovery.acquired(), NUM_RAW_RECORDS);
}

#[test]
fn threshold_reached_while_others_in_flight() {
    let mut recovery = PieceRecovery::new(0, 200);
    let indexes = recovery.piece_indexes();
    for &piece_index in &indexes[..130] {
        assert_eq!(recovery.enter_gate(piece_index), Admission::Fetch);
    }
    for &piece_index in &indexes[..130] {
        assert!(recovery.complete(piece_index, Some(piece_bytes(piece_index))));
    }
    // Retrievals already in flight still count once they return.
    assert_eq!(recovery.acquired(), 130);
    assert_eq!(recovery.enter_gate(indexes[130]), Admission::Skip);
}

#[test]
fn foreign_or_repeated_tasks_change_nothing() {
    let mut recovery = PieceRecovery::new(256, 2);
    assert_eq!(recovery.enter_gate(5), Admission::Skip);
    assert!(!recovery.complete(5, Some(piece_bytes(5))));
    assert_eq!(recovery.enter_gate(256), Admission::Fetch);
    assert_eq!(recovery.enter_gate(256), Admission::Skip);
    assert_eq!(recovery.in_flight(), 1);
    assert!(recovery.complete(256, Some(piece_bytes(256))));
    assert!(!recovery.complete(256, Some(piece_bytes(256))));
    assert_eq!(recovery.acquired(), 1);
    assert!(!recovery.complete(300, None));
    assert_eq!(recovery.in_flight(), 0);
}

#[test]
fn reconstruction_error_is_piece_retrieval_failed() {
    let outcome = reconstruction_outcome::<Vec<u8>, String>(Err("decoding".to_string()));
    match outcome {
        Err(SegmentReconstructionError::PieceRetrievalFailed(error)) => {
            assert_eq!(error, "decoding")
        }
        _ => panic!("expected PieceRetrievalFailed"),
    }
}
