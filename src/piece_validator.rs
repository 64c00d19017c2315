//! The decisions of piece validation. A piece received from a peer is checked
//! against the commitment of its segment; the caller performs each step that
//! a decision asks for (fetch a segment header, verify the piece, ban the
//! peer) and hands back what came of it.
use vstd::prelude::*;

verus! {

/// Number of pieces in one archived segment.
pub const PIECES_IN_SEGMENT: u64 = 256;

/// Identity of a peer of the network, as its bytes.
pub struct PeerId {
    pub bytes: Vec<u8>,
}

/// Position of a piece in the whole archived history.
#[derive(Clone, Copy)]
pub struct PieceIndex(pub u64);

/// A commitment to all pieces of a segment.
#[derive(Clone, Copy)]
pub struct SegmentCommitment(pub [u8; 48]);

/// What a segment of archived history commits to.
#[derive(Clone, Copy)]
pub struct SegmentHeader {
    pub segment_index: u64,
    pub segment_commitment: SegmentCommitment,
}

/// The bytes of one piece.
pub struct Piece {
    pub bytes: Vec<u8>,
}

impl PieceIndex {
    pub open spec fn segment_index_spec(self) -> u64 {
        self.0 / PIECES_IN_SEGMENT
    }

    pub open spec fn position_spec(self) -> u32 {
        (self.0 % PIECES_IN_SEGMENT) as u32
    }

    /// Index of the segment that holds this piece.
    pub fn segment_index(&self) -> (r: u64)
        ensures
            r == self.segment_index_spec(),
    {
        self.0 / PIECES_IN_SEGMENT
    }

    /// Position of this piece within its segment.
    pub fn position(&self) -> (r: u32)
        ensures
            r == self.position_spec(),
    {
        (self.0 % PIECES_IN_SEGMENT) as u32
    }
}

/// What validation asks for next, or how it ended.
pub enum ValidationStep {
    /// The piece is authentic: hand it on.
    Accept,
    /// The piece is not handed on, and its peer is not blamed.
    Reject,
    /// The piece is not handed on, and its peer is banned.
    BanAndReject,
    /// Fetch the header of this segment.
    FetchSegmentHeader { segment_index: u64 },
    /// Check the piece at this position against this commitment.
    VerifyPiece { segment_commitment: SegmentCommitment, position: u32 },
}

/// How many times a step bans the peer.
pub open spec fn bans(step: ValidationStep) -> nat {
    if step is BanAndReject {
        1
    } else {
        0
    }
}

/// The first step for a piece from `source`, where the local node is `local`.
pub open spec fn begin_step(local: Seq<u8>, source: Seq<u8>, piece_index: PieceIndex) -> ValidationStep {
    if source == local {
        ValidationStep::Accept
    } else {
        ValidationStep::FetchSegmentHeader { segment_index: piece_index.segment_index_spec() }
    }
}

/// The step after the segment headers were asked for: verify against the
/// commitment of the first header, if there is one.
pub open spec fn after_segment_headers(
    piece_index: PieceIndex,
    headers: Result<Seq<Option<SegmentHeader>>, ()>,
) -> ValidationStep {
    match headers {
        Ok(h) => if h.len() > 0 && h[0] is Some {
            ValidationStep::VerifyPiece {
                segment_commitment: h[0]->0.segment_commitment,
                position: piece_index.position_spec(),
            }
        } else {
            ValidationStep::Reject
        },
        Err(_) => ValidationStep::Reject,
    }
}

/// The step after verification: `Some(valid)` if the check ran to its end,
/// `None` if it could not complete.
pub open spec fn after_verification(outcome: Option<bool>) -> ValidationStep {
    match outcome {
        Some(true) => ValidationStep::Accept,
        Some(false) => ValidationStep::BanAndReject,
        None => ValidationStep::Reject,
    }
}

/// Whether `a` and `b` hold the same bytes.
fn same_bytes(a: &Vec<u8>, b: &Vec<u8>) -> (r: bool)
    ensures
        r == (a@ == b@),
{
    if a.len() != b.len() {
        return false;
    }
    let mut i: usize = 0;
    while i < a.len()
        invariant
            a@.len() == b@.len(),
            0 <= i <= a@.len(),
            forall|j: int| 0 <= j < i ==> a@[j] == b@[j],
        decreases a@.len() - i,
    {
        if a[i] != b[i] {
            return false;
        }
        i = i + 1;
    }
    assert(a@ =~= b@);
    true
}

/// Validates pieces against the commitments of their segments, trusting
/// those that the local node supplied itself.
pub struct SegmentCommitmentPieceValidator {
    pub local_peer_id: PeerId,
}

impl SegmentCommitmentPieceValidator {
    pub fn new(local_peer_id: PeerId) -> (r: Self)
        ensures
            r.local_peer_id == local_peer_id,
    {
        SegmentCommitmentPieceValidator { local_peer_id }
    }

    /// First step for the piece at `piece_index` received from
    /// `source_peer_id`: accept what the local node supplied, else fetch the
    /// header of the piece's segment.
    pub fn begin_validation(&self, source_peer_id: &PeerId, piece_index: PieceIndex) -> (r:
        ValidationStep)
        ensures
            r == begin_step(self.local_peer_id.bytes@, source_peer_id.bytes@, piece_index),
    {
        if same_bytes(&source_peer_id.bytes, &self.local_peer_id.bytes) {
            ValidationStep::Accept
        } else {
            ValidationStep::FetchSegmentHeader { segment_index: piece_index.segment_index() }
        }
    }

    /// Step after the header source answered the request for the segment of
    /// `piece_index`: a failed request or a missing header rejects the piece
    /// without blaming the peer.
    pub fn on_segment_headers(
        &self,
        piece_index: PieceIndex,
        headers: Result<Vec<Option<SegmentHeader>>, ()>,
    ) -> (r: ValidationStep)
        ensures
            r == after_segment_headers(
                piece_index,
                match headers {
                    Ok(h) => Ok(h@),
                    Err(e) => Err(e),
                },
            ),
    {
        match headers {
            Ok(h) => {
                if h.len() > 0 {
                    match h[0] {
                        Some(header) => ValidationStep::VerifyPiece {
                            segment_commitment: header.segment_commitment,
                            position: piece_index.position(),
                        },
                        None => ValidationStep::Reject,
                    }
                } else {
                    ValidationStep::Reject
                }
            },
            Err(_) => ValidationStep::Reject,
        }
    }

    /// Step after verification: `Some(valid)` if the check ran to its end,
    /// `None` if it could not complete. Only a piece found invalid bans its
    /// peer.
    pub fn on_verification(&self, outcome: Option<bool>) -> (r: ValidationStep)
        ensures
            r == after_verification(outcome),
    {
        match outcome {
            Some(true) => ValidationStep::Accept,
            Some(false) => ValidationStep::BanAndReject,
            None => ValidationStep::Reject,
        }
    }
}

/// What validation hands on once it ended at `step`: the piece, unchanged, if
/// it was accepted.
pub fn conclude(step: &ValidationStep, piece: Piece) -> (r: Option<Piece>)
    ensures
        step is Accept ==> r == Some(piece),
        !(step is Accept) ==> r is None,
{
    match step {
        ValidationStep::Accept => Some(piece),
        _ => None,
    }
}

/// The step at which the validation of a piece from `source` ends, where the
/// local node is `local`, when the header source answers `headers` (if it is
/// asked) and verification gives `outcome` (if it runs).
pub open spec fn final_step(
    local: Seq<u8>,
    source: Seq<u8>,
    piece_index: PieceIndex,
    headers: Result<Seq<Option<SegmentHeader>>, ()>,
    outcome: Option<bool>,
) -> ValidationStep {
    match begin_step(local, source, piece_index) {
        ValidationStep::FetchSegmentHeader { .. } => match after_segment_headers(
            piece_index,
            headers,
        ) {
            ValidationStep::VerifyPiece { .. } => after_verification(outcome),
            step => step,
        },
        step => step,
    }
}

/// A piece that the local node supplied itself is accepted whatever it holds:
/// no header is fetched, nothing is verified and no peer is banned.
pub proof fn lemma_self_source_trusted(
    local: Seq<u8>,
    piece_index: PieceIndex,
    headers: Result<Seq<Option<SegmentHeader>>, ()>,
    outcome: Option<bool>,
)
    ensures
        begin_step(local, local, piece_index) == ValidationStep::Accept,
        final_step(local, local, piece_index, headers, outcome) == ValidationStep::Accept,
        bans(final_step(local, local, piece_index, headers, outcome)) == 0,
{
}

/// A piece from another peer, whose segment header was found, that fails
/// verification is rejected, and its peer is banned exactly once.
pub proof fn lemma_invalid_piece_bans_once(
    local: Seq<u8>,
    source: Seq<u8>,
    piece_index: PieceIndex,
    headers: Seq<Option<SegmentHeader>>,
)
    requires
        source != local,
        headers.len() > 0,
        headers[0] is Some,
    ensures
        after_segment_headers(piece_index, Ok(headers)) == (ValidationStep::VerifyPiece {
            segment_commitment: headers[0]->0.segment_commitment,
            position: piece_index.position_spec(),
        }),
        final_step(local, source, piece_index, Ok(headers), Some(false))
            == ValidationStep::BanAndReject,
        bans(final_step(local, source, piece_index, Ok(headers), Some(false))) == 1,
{
}

/// Where the header source fails, or has no header for the piece's segment,
/// validation rejects the piece without banning its peer, whatever
/// verification would have given.
pub proof fn lemma_missing_header_fails_closed(
    local: Seq<u8>,
    source: Seq<u8>,
    piece_index: PieceIndex,
    headers: Result<Seq<Option<SegmentHeader>>, ()>,
    outcome: Option<bool>,
)
    requires
        source != local,
        match headers {
            Ok(h) => h.len() == 0 || h[0] is None,
            Err(_) => true,
        },
    ensures
        final_step(local, source, piece_index, headers, outcome) == ValidationStep::Reject,
        bans(final_step(local, source, piece_index, headers, outcome)) == 0,
{
}

/// A verification that could not complete rejects the piece without banning
/// its peer.
pub proof fn lemma_failed_check_does_not_ban(
    local: Seq<u8>,
    source: Seq<u8>,
    piece_index: PieceIndex,
    headers: Result<Seq<Option<SegmentHeader>>, ()>,
)
    requires
        source != local,
    ensures
        final_step(local, source, piece_index, headers, None) == ValidationStep::Reject,
        bans(final_step(local, source, piece_index, headers, None)) == 0,
{
}

} // verus!
