use subspace_archival::piece_validator::{
    conclude, PeerId, Piece, PieceIndex, SegmentCommitment, SegmentCommitmentPieceValidator,
    SegmentHeader, ValidationStep,
};

fn validator() -> SegmentCommitmentPieceValidator {
    SegmentCommitmentPieceValidator::new(PeerId {
        bytes: vec![1, 2, 3, 4],
    })
}

fn header() -> SegmentHeader {
    SegmentHeader {
        segment_index: 3,
        segment_commitment: SegmentCommitment([7; 48]),
    }
}

#[test]
fn self_sourced_piece_is_accepted_unchanged() {
    let v = validator();
    let step = v.begin_validation(&PeerId { bytes: vec![1, 2, 3, 4] }, PieceIndex(1000));
    assert!(matches!(step, ValidationStep::Accept));
    let piece = Piece {
        bytes: vec![0xff; 16],
    };
    let out = conclude(&step, piece).expect("accepted");
    assert_eq!(out.bytes, vec![0xff; 16]);
}

#[test]
fn other_peer_triggers_header_fetch() {
    let v = validator();
    for other in [vec![1, 2, 3], vec![1, 2, 3, 5], vec![]] {
        let step = v.begin_validation(&PeerId { bytes: other }, PieceIndex(3 * 256 + 5));
        assert!(matches!(
            step,
            ValidationStep::FetchSegmentHeader { segment_index: 3 }
        ));
    }
}

#[test]
fn piece_index_parts() {
    assert_eq!(PieceIndex(0).segment_index(), 0);
    assert_eq!(PieceIndex(255).position(), 255);
    assert_eq!(PieceIndex(256).segment_index(), 1);
    assert_eq!(PieceIndex(256).position(), 0);
    assert_eq!(PieceIndex(u64::MAX).position(), 255);
}

#[test]
fn header_source_error_rejects_without_ban() {
    let step = validator().on_segment_headers(PieceIndex(5), Err(()));
    assert!(matches!(step, ValidationStep::Reject));
}

#[test]
fn missing_header_rejects_without_ban() {
    let v = validator();
    assert!(matches!(
        v.on_segment_headers(PieceIndex(5), Ok(vec![None])),
        ValidationStep::Reject
    ));
    assert!(matches!(
        v.on_segment_headers(PieceIndex(5), Ok(vec![])),
        ValidationStep::Reject
    ));
}

#[test]
fn found_header_leads_to_verification() {
    let step = validator().on_segment_headers(PieceIndex(3 * 256 + 17), Ok(vec![Some(header())]));
    match step {
        ValidationStep::VerifyPiece {
            segment_commitment,
            position,
        } => {
            assert_eq!(segment_commitment.0, [7; 48]);
            assert_eq!(position, 17);
        }
        _ => panic!("expected verification"),
    }
}

#[test]
fn invalid_piece_bans_peer() {
    let v = validator();
    let step = v.on_verification(Some(false));
    assert!(matches!(step, ValidationStep::BanAndReject));
    assert!(conclude(&step, Piece { bytes: vec![1] }).is_none());
}

#[test]
fn valid_piece_is_accepted() {
    let v = validator();
    let step = v.on_verification(Some(true));
    assert!(matches!(step, ValidationStep::Accept));
    assert_eq!(
        conclude(&step, Piece { bytes: vec![4, 5] }).unwrap().bytes,
        vec![4, 5]
    );
}

#[test]
fn failed_check_rejects_without_ban() {
    let step = validator().on_verification(None);
    assert!(matches!(step, ValidationStep::Reject));
    assert!(conclude(&step, Piece { bytes: vec![1] }).is_none());
}
