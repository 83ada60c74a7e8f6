use vstd::prelude::*;

use crate::segment::{
    first_piece_of, piece_position, piece_segment_index, position_of, segment_fits, segment_of,
    segment_piece_indexes_source_first, source_first_position, NUM_PIECES, NUM_RAW_RECORDS,
};

verus! {

/// Default number of piece retrievals that may be in flight at once.
pub const PARALLELISM_LEVEL: usize = 20;

/// Why a missing piece could not be recovered; `E` is the reconstructor's own error.
#[derive(Debug)]
pub enum SegmentReconstructionError<E> {
    /// Not enough pieces to reconstruct a segment.
    NotEnoughPiecesAcquired,
    /// The reconstruction of the segment from the acquired pieces failed.
    PieceRetrievalFailed(E),
}

/// Where the retrieval of one piece of the segment stands.
#[derive(Clone, Copy, Debug, PartialEq, Eq, Structural)]
pub enum SlotState {
    /// Its task has not been admitted yet.
    Pending,
    /// Its task was admitted after enough pieces had been acquired and made no call.
    Skipped,
    /// Its retrieval call has been issued and has not returned.
    InFlight,
    /// Its retrieval returned the piece.
    Acquired,
    /// Its retrieval returned nothing or failed.
    Unavailable,
}

/// What a retrieval task is to do once it holds an admission slot.
#[derive(Clone, Copy, Debug, PartialEq, Eq, Structural)]
pub enum Admission {
    /// Issue one retrieval attempt for the piece.
    Fetch,
    /// Make no call: enough pieces are acquired already, or the task is not one of
    /// this recovery's pending tasks.
    Skip,
    /// Every admission slot is taken: wait for a retrieval to complete.
    Wait,
}

/// Number of entries of `s` equal to `st`.
pub open spec fn count_state(s: Seq<SlotState>, st: SlotState) -> nat
    decreases s.len(),
{
    if s.len() == 0 {
        0
    } else {
        count_state(s.drop_last(), st) + if s.last() == st {
            1nat
        } else {
            0nat
        }
    }
}

proof fn lemma_count_bounded(s: Seq<SlotState>, st: SlotState)
    ensures
        count_state(s, st) <= s.len(),
    decreases s.len(),
{
    if s.len() > 0 {
        lemma_count_bounded(s.drop_last(), st);
    }
}

proof fn lemma_count_update(s: Seq<SlotState>, i: int, v: SlotState, st: SlotState)
    requires
        0 <= i < s.len(),
    ensures
        count_state(s.update(i, v), st) + (if s[i] == st {
            1int
        } else {
            0int
        }) == count_state(s, st) + (if v == st {
            1int
        } else {
            0int
        }),
    decreases s.len(),
{
    let t = s.update(i, v);
    if i == s.len() - 1 {
        assert(t.drop_last() =~= s.drop_last());
    } else {
        assert(t.drop_last() =~= s.drop_last().update(i, v));
        lemma_count_update(s.drop_last(), i, v, st);
    }
}

proof fn lemma_count_all_same(n: nat, st: SlotState, other: SlotState)
    requires
        st != other,
    ensures
        count_state(Seq::new(n, |_i: int| st), st) == n,
        count_state(Seq::new(n, |_i: int| st), other) == 0,
    decreases n,
{
    if n > 0 {
        assert(Seq::new(n, |_i: int| st).drop_last() =~= Seq::new((n - 1) as nat, |_i: int| st));
        lemma_count_all_same((n - 1) as nat, st, other);
    }
}

/// Decision state of the recovery of one missing piece from the other pieces of its
/// segment.
///
/// One retrieval task runs per piece of the segment. A task first takes an
/// admission slot (`enter_gate`); at most `parallelism` retrievals are in flight at
/// once. Once the number of acquired pieces reaches `NUM_RAW_RECORDS`, admitted
/// tasks make no further call. Each result is stored at the position of its piece,
/// and each position is written by its own task only, so the order in which the
/// results come back does not matter. When every task has finished,
/// `into_reconstruction_input` decides whether reconstruction can proceed.
pub struct PieceRecovery<P> {
    missing_piece_index: u64,
    parallelism: usize,
    in_flight: usize,
    acquired: usize,
    slots: Vec<SlotState>,
    pieces: Vec<Option<P>>,
}

impl<P> PieceRecovery<P> {
    pub closed spec fn spec_missing_piece_index(&self) -> u64 {
        self.missing_piece_index
    }

    pub closed spec fn spec_parallelism(&self) -> usize {
        self.parallelism
    }

    /// Number of retrievals issued that have not returned.
    pub closed spec fn spec_in_flight(&self) -> nat {
        self.in_flight as nat
    }

    /// Number of pieces acquired so far.
    pub closed spec fn spec_acquired(&self) -> nat {
        self.acquired as nat
    }

    /// State of each position of the segment.
    pub closed spec fn spec_slots(&self) -> Seq<SlotState> {
        self.slots@
    }

    /// Piece acquired at each position of the segment, if any.
    pub closed spec fn spec_pieces(&self) -> Seq<Option<P>> {
        self.pieces@
    }

    /// Number of retrieval calls issued so far.
    pub open spec fn spec_retrievals(&self) -> nat {
        count_state(self.spec_slots(), SlotState::InFlight) + count_state(
            self.spec_slots(),
            SlotState::Acquired,
        ) + count_state(self.spec_slots(), SlotState::Unavailable)
    }

    /// Segment of the missing piece.
    pub open spec fn spec_segment_index(&self) -> u64 {
        segment_of(self.spec_missing_piece_index())
    }

    /// Whether `piece_index` is a piece of the segment being recovered.
    pub open spec fn in_segment(&self, piece_index: u64) -> bool {
        segment_of(piece_index) == self.spec_segment_index()
    }

    pub closed spec fn wf(&self) -> bool {
        &&& self.slots@.len() == NUM_PIECES
        &&& self.pieces@.len() == NUM_PIECES
        &&& forall|i: int|
            0 <= i < NUM_PIECES ==> (#[trigger] self.pieces@[i] is Some <==> self.slots@[i]
                == SlotState::Acquired)
        &&& self.acquired == count_state(self.slots@, SlotState::Acquired)
        &&& self.in_flight == count_state(self.slots@, SlotState::InFlight)
        &&& self.in_flight <= self.parallelism
    }

    /// The well-formedness facts that callers rely on.
    pub proof fn lemma_wf(&self)
        requires
            self.wf(),
        ensures
            self.spec_slots().len() == NUM_PIECES,
            self.spec_pieces().len() == NUM_PIECES,
            forall|i: int|
                0 <= i < NUM_PIECES ==> (#[trigger] self.spec_pieces()[i] is Some
                    <==> self.spec_slots()[i] == SlotState::Acquired),
            self.spec_acquired() == count_state(self.spec_slots(), SlotState::Acquired),
            self.spec_in_flight() == count_state(self.spec_slots(), SlotState::InFlight),
            self.spec_in_flight() <= self.spec_parallelism(),
            self.spec_acquired() <= NUM_PIECES,
    {
        lemma_count_bounded(self.slots@, SlotState::Acquired);
    }

    /// Starts the recovery of `missing_piece_index`, with at most `parallelism`
    /// retrievals in flight at once.
    pub fn new(missing_piece_index: u64, parallelism: usize) -> (r: Self)
        ensures
            r.wf(),
            r.spec_missing_piece_index() == missing_piece_index,
            r.spec_parallelism() == parallelism,
            r.spec_in_flight() == 0,
            r.spec_acquired() == 0,
            r.spec_slots() == Seq::new(NUM_PIECES as nat, |_i: int| SlotState::Pending),
            r.spec_pieces() == Seq::new(NUM_PIECES as nat, |_i: int| None::<P>),
            r.spec_retrievals() == 0,
    {
        let mut slots: Vec<SlotState> = Vec::new();
        let mut pieces: Vec<Option<P>> = Vec::new();
        let mut i: usize = 0;
        while i < NUM_PIECES
            invariant
                i <= NUM_PIECES,
                slots@ == Seq::new(i as nat, |_i: int| SlotState::Pending),
                pieces@ == Seq::new(i as nat, |_i: int| None::<P>),
            decreases NUM_PIECES - i,
        {
            slots.push(SlotState::Pending);
            pieces.push(None);
            i = i + 1;
            assert(slots@ =~= Seq::new(i as nat, |_i: int| SlotState::Pending));
            assert(pieces@ =~= Seq::new(i as nat, |_i: int| None::<P>));
        }
        proof {
            lemma_count_all_same(NUM_PIECES as nat, SlotState::Pending, SlotState::Acquired);
            lemma_count_all_same(NUM_PIECES as nat, SlotState::Pending, SlotState::InFlight);
            lemma_count_all_same(NUM_PIECES as nat, SlotState::Pending, SlotState::Unavailable);
        }
        PieceRecovery { missing_piece_index, parallelism, in_flight: 0, acquired: 0, slots, pieces }
    }

    /// Starts the recovery of `missing_piece_index` with the default parallelism.
    pub fn with_default_parallelism(missing_piece_index: u64) -> (r: Self)
        ensures
            r.wf(),
            r.spec_missing_piece_index() == missing_piece_index,
            r.spec_parallelism() == PARALLELISM_LEVEL,
            r.spec_in_flight() == 0,
            r.spec_acquired() == 0,
            r.spec_slots() == Seq::new(NUM_PIECES as nat, |_i: int| SlotState::Pending),
            r.spec_pieces() == Seq::new(NUM_PIECES as nat, |_i: int| None::<P>),
            r.spec_retrievals() == 0,
    {
        Self::new(missing_piece_index, PARALLELISM_LEVEL)
    }

    /// The piece being recovered.
    pub fn missing_piece_index(&self) -> (r: u64)
        ensures
            r == self.spec_missing_piece_index(),
    {
        self.missing_piece_index
    }

    /// Segment of the piece being recovered.
    pub fn segment_index(&self) -> (r: u64)
        ensures
            r == self.spec_segment_index(),
            segment_fits(r),
    {
        piece_segment_index(self.missing_piece_index)
    }

    /// Position of the missing piece inside its segment.
    pub fn position(&self) -> (r: u32)
        ensures
            r == position_of(self.spec_missing_piece_index()),
            (r as usize) < NUM_PIECES,
    {
        piece_position(self.missing_piece_index)
    }

    /// Maximal number of retrievals in flight at once.
    pub fn parallelism(&self) -> (r: usize)
        ensures
            r == self.spec_parallelism(),
    {
        self.parallelism
    }

    /// Number of pieces acquired so far.
    pub fn acquired(&self) -> (r: usize)
        ensures
            r == self.spec_acquired(),
    {
        self.acquired
    }

    /// Number of retrievals issued that have not returned.
    pub fn in_flight(&self) -> (r: usize)
        ensures
            r == self.spec_in_flight(),
    {
        self.in_flight
    }

    /// Whether enough pieces are acquired to reconstruct the segment.
    pub fn has_enough(&self) -> (r: bool)
        ensures
            r == (self.spec_acquired() >= NUM_RAW_RECORDS),
    {
        self.acquired >= NUM_RAW_RECORDS
    }

    /// The pieces to retrieve, one task each, in the order the tasks are launched:
    /// the segment's source pieces first, then its parity pieces.
    pub fn piece_indexes(&self) -> (r: Vec<u64>)
        ensures
            r@.len() == NUM_PIECES,
            forall|i: int|
                0 <= i < NUM_PIECES ==> r@[i] == first_piece_of(self.spec_segment_index())
                    + source_first_position(i),
    {
        let segment_index = self.segment_index();
        segment_piece_indexes_source_first(segment_index)
    }

    /// Whether `piece_index` names a task of this recovery that has not been admitted.
    pub open spec fn is_pending(&self, piece_index: u64) -> bool {
        &&& self.in_segment(piece_index)
        &&& self.spec_slots()[position_of(piece_index) as int] == SlotState::Pending
    }

    /// Whether `piece_index` names a task of this recovery whose retrieval is in flight.
    pub open spec fn is_in_flight(&self, piece_index: u64) -> bool {
        &&& self.in_segment(piece_index)
        &&& self.spec_slots()[position_of(piece_index) as int] == SlotState::InFlight
    }

    /// What the task for `piece_index` is to do when it asks for admission.
    pub open spec fn admission_for(&self, piece_index: u64) -> Admission {
        if !self.is_pending(piece_index) {
            Admission::Skip
        } else if self.spec_in_flight() >= self.spec_parallelism() {
            Admission::Wait
        } else if self.spec_acquired() >= NUM_RAW_RECORDS {
            Admission::Skip
        } else {
            Admission::Fetch
        }
    }

    /// Admits the task that retrieves `piece_index`.
    ///
    /// `Fetch` takes an admission slot for one retrieval attempt, which the task
    /// gives back with `complete`. `Skip` ends a pending task without a call, since
    /// enough pieces are acquired already. `Wait` changes nothing.
    pub fn enter_gate(&mut self, piece_index: u64) -> (r: Admission)
        requires
            old(self).wf(),
        ensures
            final(self).wf(),
            r == old(self).admission_for(piece_index),
            final(self).spec_missing_piece_index() == old(self).spec_missing_piece_index(),
            final(self).spec_parallelism() == old(self).spec_parallelism(),
            final(self).spec_acquired() == old(self).spec_acquired(),
            final(self).spec_pieces() == old(self).spec_pieces(),
            r == Admission::Fetch ==> {
                &&& old(self).spec_in_flight() < old(self).spec_parallelism()
                &&& final(self).spec_in_flight() == old(self).spec_in_flight() + 1
                &&& final(self).spec_slots() == old(self).spec_slots().update(
                    position_of(piece_index) as int,
                    SlotState::InFlight,
                )
                &&& final(self).spec_retrievals() == old(self).spec_retrievals() + 1
            },
            r == Admission::Skip && old(self).is_pending(piece_index) ==> final(self).spec_slots()
                == old(self).spec_slots().update(position_of(piece_index) as int, SlotState::Skipped),
            r == Admission::Skip && !old(self).is_pending(piece_index) ==> final(self).spec_slots()
                == old(self).spec_slots(),
            r == Admission::Wait ==> final(self).spec_slots() == old(self).spec_slots(),
            r != Admission::Fetch ==> {
                &&& final(self).spec_in_flight() == old(self).spec_in_flight()
                &&& final(self).spec_retrievals() == old(self).spec_retrievals()
            },
            old(self).spec_acquired() >= NUM_RAW_RECORDS ==> r != Admission::Fetch,
    {
        if piece_index / (NUM_PIECES as u64) != self.missing_piece_index / (NUM_PIECES as u64) {
            return Admission::Skip;
        }
        let pos = piece_position(piece_index) as usize;
        if self.slots[pos] != SlotState::Pending {
            return Admission::Skip;
        }
        if self.in_flight >= self.parallelism {
            return Admission::Wait;
        }
        let ghost old_slots = self.slots@;
        if self.acquired >= NUM_RAW_RECORDS {
            self.slots.set(pos, SlotState::Skipped);
            proof {
                lemma_count_update(old_slots, pos as int, SlotState::Skipped, SlotState::InFlight);
                lemma_count_update(old_slots, pos as int, SlotState::Skipped, SlotState::Acquired);
                lemma_count_update(
                    old_slots,
                    pos as int,
                    SlotState::Skipped,
                    SlotState::Unavailable,
                );
            }
            return Admission::Skip;
        }
        self.slots.set(pos, SlotState::InFlight);
        self.in_flight = self.in_flight + 1;
        proof {
            lemma_count_update(old_slots, pos as int, SlotState::InFlight, SlotState::InFlight);
            lemma_count_update(old_slots, pos as int, SlotState::InFlight, SlotState::Acquired);
            lemma_count_update(old_slots, pos as int, SlotState::InFlight, SlotState::Unavailable);
        }
        Admission::Fetch
    }

    /// Records what the retrieval of `piece_index` returned (`None` where it found
    /// nothing or failed) and gives its admission slot back.
    ///
    /// Returns whether `piece_index` had a retrieval in flight; where it had none,
    /// nothing changes.
    pub fn complete(&mut self, piece_index: u64, piece: Option<P>) -> (r: bool)
        requires
            old(self).wf(),
        ensures
            final(self).wf(),
            r == old(self).is_in_flight(piece_index),
            final(self).spec_missing_piece_index() == old(self).spec_missing_piece_index(),
            final(self).spec_parallelism() == old(self).spec_parallelism(),
            final(self).spec_acquired() >= old(self).spec_acquired(),
            final(self).spec_retrievals() == old(self).spec_retrievals(),
            !r ==> {
                &&& final(self).spec_slots() == old(self).spec_slots()
                &&& final(self).spec_pieces() == old(self).spec_pieces()
                &&& final(self).spec_in_flight() == old(self).spec_in_flight()
                &&& final(self).spec_acquired() == old(self).spec_acquired()
            },
            r ==> final(self).spec_in_flight() + 1 == old(self).spec_in_flight(),
            r && piece is Some ==> {
                &&& final(self).spec_slots() == old(self).spec_slots().update(
                    position_of(piece_index) as int,
                    SlotState::Acquired,
                )
                &&& final(self).spec_pieces() == old(self).spec_pieces().update(
                    position_of(piece_index) as int,
                    piece,
                )
                &&& final(self).spec_acquired() == old(self).spec_acquired() + 1
            },
            r && piece is None ==> {
                &&& final(self).spec_slots() == old(self).spec_slots().update(
                    position_of(piece_index) as int,
                    SlotState::Unavailable,
                )
                &&& final(self).spec_pieces() == old(self).spec_pieces()
                &&& final(self).spec_acquired() == old(self).spec_acquired()
            },
    {
        if piece_index / (NUM_PIECES as u64) != self.missing_piece_index / (NUM_PIECES as u64) {
            return false;
        }
        let pos = piece_position(piece_index) as usize;
        if self.slots[pos] != SlotState::InFlight {
            return false;
        }
        let ghost old_slots = self.slots@;
        proof {
            lemma_count_update(old_slots, pos as int, SlotState::Pending, SlotState::InFlight);
            lemma_count_bounded(old_slots.update(pos as int, SlotState::Pending), SlotState::Acquired);
        }
        self.in_flight = self.in_flight - 1;
        match piece {
            Some(p) => {
                self.slots.set(pos, SlotState::Acquired);
                self.pieces.set(pos, Some(p));
                proof {
                    lemma_count_update(old_slots, pos as int, SlotState::Acquired, SlotState::InFlight);
                    lemma_count_update(old_slots, pos as int, SlotState::Acquired, SlotState::Acquired);
                    lemma_count_update(
                        old_slots,
                        pos as int,
                        SlotState::Acquired,
                        SlotState::Unavailable,
                    );
                    lemma_count_bounded(self.slots@, SlotState::Acquired);
                }
                self.acquired = self.acquired + 1;
            },
            None => {
                self.slots.set(pos, SlotState::Unavailable);
                proof {
                    lemma_count_update(
                        old_slots,
                        pos as int,
                        SlotState::Unavailable,
                        SlotState::InFlight,
                    );
                    lemma_count_update(
                        old_slots,
                        pos as int,
                        SlotState::Unavailable,
                        SlotState::Acquired,
                    );
                    lemma_count_update(
                        old_slots,
                        pos as int,
                        SlotState::Unavailable,
                        SlotState::Unavailable,
                    );
                }
            },
        }
        true
    }

    /// Ends the fan-out once every task has finished: the pieces acquired, each at
    /// its position in the segment, where at least `NUM_RAW_RECORDS` were acquired,
    /// and `NotEnoughPiecesAcquired` otherwise.
    pub fn into_reconstruction_input<E>(self) -> (r: Result<Vec<Option<P>>, SegmentReconstructionError<E>>)
        requires
            self.wf(),
            self.spec_in_flight() == 0,
        ensures
            r is Err <==> self.spec_acquired() < NUM_RAW_RECORDS,
            r is Err ==> r->Err_0 is NotEnoughPiecesAcquired,
            r is Ok ==> r->Ok_0@ == self.spec_pieces(),
    {
        if self.acquired < NUM_RAW_RECORDS {
            Err(SegmentReconstructionError::NotEnoughPiecesAcquired)
        } else {
            Ok(self.pieces)
        }
    }
}

/// Outcome of a recovery from what the reconstruction returned: the reconstructed
/// piece itself, or its error as `PieceRetrievalFailed`.
pub fn reconstruction_outcome<P, E>(reconstructed: Result<P, E>) -> (r: Result<P, SegmentReconstructionError<E>>)
    ensures
        reconstructed is Ok ==> r == Ok::<P, SegmentReconstructionError<E>>(reconstructed->Ok_0),
        reconstructed is Err ==> r == Err::<P, SegmentReconstructionError<E>>(
            SegmentReconstructionError::PieceRetrievalFailed(reconstructed->Err_0),
        ),
{
    match reconstructed {
        Ok(piece) => Ok(piece),
        Err(error) => Err(SegmentReconstructionError::PieceRetrievalFailed(error)),
    }
}

/// No more than the recovery's parallelism of retrievals is ever in flight.
pub proof fn lemma_in_flight_bounded<P>(recovery: &PieceRecovery<P>)
    requires
        recovery.wf(),
    ensures
        recovery.spec_in_flight() <= recovery.spec_parallelism(),
{
    recovery.lemma_wf();
}

/// Once the acquired count has reached `NUM_RAW_RECORDS`, no task that enters the
/// gate is told to fetch. (`complete` never lowers the count, so this holds for the
/// rest of the recovery.)
pub proof fn lemma_no_retrieval_after_threshold<P>(
    recovery: &PieceRecovery<P>,
    piece_index: u64,
)
    requires
        recovery.wf(),
        recovery.spec_acquired() >= NUM_RAW_RECORDS,
    ensures
        recovery.admission_for(piece_index) != Admission::Fetch,
{
}

} // verus!
