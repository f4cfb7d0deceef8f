use chess_core::castle_rights::CastleRights;

#[test]
fn has_kingside() {
    let rights = CastleRights::Both;
    assert!(rights.has_kingside());

    let rights = CastleRights::KingSide;
    assert!(rights.has_kingside());

    let rights = CastleRights::QueenSide;
    assert!(!rights.has_kingside());

    let rights = CastleRights::Neither;
    assert!(!rights.has_kingside());
}

#[test]
fn has_queenside() {
    let rights = CastleRights::Both;
    assert!(rights.has_queenside());

    let rights = CastleRights::KingSide;
    assert!(!rights.has_queenside());

    let rights = CastleRights::QueenSide;
    assert!(rights.has_queenside());

    let rights = CastleRights::Neither;
    assert!(!rights.has_queenside());
}

#[test]
fn remove_kingside() {
    let mut rights = CastleRights::Both;
    rights.remove_kingside();
    assert_eq!(rights, CastleRights::QueenSide);

    rights = CastleRights::KingSide;
    rights.remove_kingside();
    assert_eq!(rights, CastleRights::Neither);

    rights = CastleRights::QueenSide;
    rights.remove_kingside();
    assert_eq!(rights, CastleRights::QueenSide);

    rights = CastleRights::Neither;
    rights.remove_kingside();
    assert_eq!(rights, CastleRights::Neither);
}

#[test]
fn remove_queenside() {
    let mut rights = CastleRights::Both;
    rights.remove_queenside();
    assert_eq!(rights, CastleRights::KingSide);

    rights = CastleRights::QueenSide;
    rights.remove_queenside();
    assert_eq!(rights, CastleRights::Neither);

    rights = CastleRights::KingSide;
    rights.remove_queenside();
    assert_eq!(rights, CastleRights::KingSide);

    rights = CastleRights::Neither;
    rights.remove_queenside();
    assert_eq!(rights, CastleRights::Neither);
}
