use vstd::prelude::*;

verus! {

/// Number of source (raw) records in one recorded history segment, which is also
/// the number of pieces that suffice to reconstruct the whole archived segment.
pub const NUM_RAW_RECORDS: usize = 128;

/// Number of pieces in one archived segment: the source pieces interleaved with as
/// many parity pieces (source pieces at even positions, parity pieces at odd ones).
pub const NUM_PIECES: usize = 256;

/// Segment that a piece index belongs to.
pub open spec fn segment_of(piece_index: u64) -> u64 {
    piece_index / (NUM_PIECES as u64)
}

/// Position of a piece inside its segment.
pub open spec fn position_of(piece_index: u64) -> u32 {
    (piece_index % (NUM_PIECES as u64)) as u32
}

/// Index of the first piece of a segment.
pub open spec fn first_piece_of(segment_index: u64) -> int {
    segment_index * NUM_PIECES
}

/// Whether the pieces of a segment have indexes that fit in `u64`.
pub open spec fn segment_fits(segment_index: u64) -> bool {
    first_piece_of(segment_index) + NUM_PIECES <= u64::MAX + 1
}

/// Position within the segment of the `i`-th piece in source-first order: all
/// source pieces (even positions) first, then all parity pieces (odd positions).
pub open spec fn source_first_position(i: int) -> int {
    if i < NUM_RAW_RECORDS {
        2 * i
    } else {
        2 * (i - NUM_RAW_RECORDS) + 1
    }
}

/// Where position `p` stands in source-first order; inverse of `source_first_position`.
pub open spec fn source_first_rank(p: int) -> int {
    if p % 2 == 0 {
        p / 2
    } else {
        NUM_RAW_RECORDS + p / 2
    }
}

/// Whether a position holds a source piece (as opposed to a parity piece).
pub open spec fn is_source_position(p: int) -> bool {
    p % 2 == 0
}

/// Segment index of a piece index.
pub fn piece_segment_index(piece_index: u64) -> (r: u64)
    ensures
        r == segment_of(piece_index),
        segment_fits(r),
        first_piece_of(r) <= piece_index < first_piece_of(r) + NUM_PIECES,
{
    let r = piece_index / (NUM_PIECES as u64);
    assert(first_piece_of(r) <= piece_index < first_piece_of(r) + NUM_PIECES) by (nonlinear_arith)
        requires
            r == piece_index / 256,
    ;
    r
}

/// Position of a piece index inside its segment.
pub fn piece_position(piece_index: u64) -> (r: u32)
    ensures
        r == position_of(piece_index),
        (r as usize) < NUM_PIECES,
        piece_index == first_piece_of(segment_of(piece_index)) + r,
{
    (piece_index % (NUM_PIECES as u64)) as u32
}

/// Index of the first piece of a segment.
pub fn segment_first_piece_index(segment_index: u64) -> (r: u64)
    requires
        segment_fits(segment_index),
    ensures
        r == first_piece_of(segment_index),
{
    segment_index * (NUM_PIECES as u64)
}

/// All piece indexes of a segment, source pieces first (in position order), then
/// parity pieces (in position order).
pub fn segment_piece_indexes_source_first(segment_index: u64) -> (r: Vec<u64>)
    requires
        segment_fits(segment_index),
    ensures
        r@.len() == NUM_PIECES,
        forall|i: int|
            0 <= i < NUM_PIECES ==> r@[i] == first_piece_of(segment_index)
                + source_first_position(i),
{
    let first = segment_first_piece_index(segment_index);
    let mut r: Vec<u64> = Vec::new();
    let half: u64 = NUM_RAW_RECORDS as u64;
    let mut i: u64 = 0;
    while i < half
        invariant
            first == first_piece_of(segment_index),
            segment_fits(segment_index),
            half == NUM_RAW_RECORDS,
            i <= half,
            r@.len() == i,
            forall|j: int| 0 <= j < i ==> r@[j] == first + source_first_position(j),
        decreases half - i,
    {
        r.push(first + 2 * i);
        i = i + 1;
    }
    let mut k: u64 = 0;
    while k < half
        invariant
            first == first_piece_of(segment_index),
            segment_fits(segment_index),
            half == NUM_RAW_RECORDS,
            k <= half,
            r@.len() == half + k,
            forall|j: int| 0 <= j < half + k ==> r@[j] == first + source_first_position(j),
        decreases half - k,
    {
        r.push(first + 2 * k + 1);
        k = k + 1;
    }
    r
}

/// Source-first order lists every piece of the segment exactly once: each position
/// has exactly one rank, and the first `NUM_RAW_RECORDS` ranks are the source pieces.
pub proof fn lemma_source_first_is_permutation(i: int, p: int)
    requires
        0 <= i < NUM_PIECES,
        0 <= p < NUM_PIECES,
    ensures
        0 <= source_first_position(i) < NUM_PIECES,
        0 <= source_first_rank(p) < NUM_PIECES,
        source_first_position(source_first_rank(p)) == p,
        source_first_rank(source_first_position(i)) == i,
        is_source_position(source_first_position(i)) <==> i < NUM_RAW_RECORDS,
{
}

} // verus!
