//! Move resolution against the real rule engine and notation converter.

use shogi_thread_bot::codec::{decode, GameRecord};
use shogi_thread_bot::engine::{pos2img, GameStatus};
use shogi_thread_bot::error::Error;
use shogi_thread_bot::resolve::{last_move_ki2, resolve_first, MoveChecker};

#[test]
fn legal_standalone_move_is_applied() {
    let mut c = MoveChecker::new(GameRecord::initial()).unwrap();
    assert!(c.try_move("7g7f").is_ok());
    assert_eq!(c.record.moves.len(), 1);
    assert_eq!(c.usi, "startpos moves 7g7f");
}

#[test]
fn illegal_move_is_rejected_and_state_kept() {
    let mut c = MoveChecker::new(GameRecord::initial()).unwrap();
    assert_eq!(c.try_move("7g7e"), Err(Error::IllegalMove));
    assert_eq!(c.try_move("1a1b"), Err(Error::IllegalMove));
    assert_eq!(c.record.moves.len(), 0);
    assert_eq!(c.usi, "startpos");
}

#[test]
fn unparseable_text_is_rejected() {
    let mut c = MoveChecker::new(GameRecord::initial()).unwrap();
    assert_eq!(c.try_move("bad"), Err(Error::ParseMove));
    assert_eq!(c.try_move(""), Err(Error::ParseMove));
    assert_eq!(c.record.moves.len(), 0);
}

#[test]
fn contextual_notation_is_resolved() {
    let rec = decode("startpos moves 7g7f");
    let mut c = MoveChecker::new(rec).unwrap();
    assert!(c.try_move("△３四歩").is_ok());
    assert_eq!(c.usi, "startpos moves 7g7f 3c3d");
}

#[test]
fn ascii_digits_are_widened_for_contextual_notation() {
    let rec = decode("startpos moves 7g7f");
    let mut c = MoveChecker::new(rec).unwrap();
    assert!(c.try_move("△3四歩").is_ok());
    assert_eq!(c.usi, "startpos moves 7g7f 3c3d");
}

#[test]
fn ideographic_space_is_stripped_before_the_token() {
    let rec = decode("startpos moves 7g7f");
    let mut c = MoveChecker::new(rec).unwrap();
    assert!(c.try_move("\u{3000}△３四歩").is_ok());
    assert_eq!(c.usi, "startpos moves 7g7f 3c3d");
}

#[test]
fn contextual_notation_needs_a_transcript() {
    // Against an empty transcript the combined text starts with a
    // separator the contextual grammar does not take, so a game's first
    // move can arrive only in standalone notation.
    let mut c = MoveChecker::new(GameRecord::initial()).unwrap();
    assert_eq!(c.try_move("▲７六歩"), Err(Error::ParseMove));
}

#[test]
fn contextual_notation_uses_the_transcript() {
    let rec = decode("startpos moves 7g7f 3c3d");
    assert_eq!(rec.moves.len(), 2);
    let mut c = MoveChecker::new(rec).unwrap();
    assert!(c.try_move("▲２二角成").is_ok());
    assert_eq!(c.usi, "startpos moves 7g7f 3c3d 8h2b+");
}

#[test]
fn drop_move_side_follows_side_to_move() {
    let rec = decode("startpos moves 7g7f 3c3d 8h2b+ 3a2b");
    let mut c = MoveChecker::new(rec).unwrap();
    // Black holds a captured bishop and may drop it.
    assert!(c.try_move("B*5e").is_ok());
    assert_eq!(c.usi, "startpos moves 7g7f 3c3d 8h2b+ 3a2b B*5e");
}

#[test]
fn first_legal_candidate_wins() {
    let mut c = MoveChecker::new(GameRecord::initial()).unwrap();
    let texts = vec![
        String::from("nonsense"),
        String::from("7g7e"),
        String::from("2g2f"),
        String::from("7g7f"),
    ];
    assert_eq!(resolve_first(&mut c, &texts), Some(2));
    assert_eq!(c.usi, "startpos moves 2g2f");
}

#[test]
fn exhausted_scan_changes_nothing() {
    let mut c = MoveChecker::new(GameRecord::initial()).unwrap();
    let texts = vec![String::from("nonsense"), String::from("7g7e")];
    assert_eq!(resolve_first(&mut c, &texts), None);
    assert_eq!(c.usi, "startpos");
}

#[test]
fn status_of_fresh_game_is_ongoing() {
    let c = MoveChecker::new(GameRecord::initial()).unwrap();
    assert_eq!(c.status(), GameStatus::Ongoing);
}

#[test]
fn repetition_is_a_draw() {
    let rec = decode(
        "startpos moves 5i5h 5a5b 5h5i 5b5a 5i5h 5a5b 5h5i 5b5a 5i5h 5a5b 5h5i 5b5a",
    );
    assert_eq!(rec.moves.len(), 12);
    let c = MoveChecker::new(rec).unwrap();
    assert_eq!(c.status(), GameStatus::Draw);
}

#[test]
fn last_move_in_contextual_notation() {
    let mut c = MoveChecker::new(GameRecord::initial()).unwrap();
    c.try_move("7g7f").unwrap();
    let tok = last_move_ki2(&c.usi).unwrap().unwrap();
    assert!(tok.contains("７六歩"), "unexpected token: {tok}");
}

#[test]
fn fresh_game_has_no_last_move() {
    let c = MoveChecker::new(GameRecord::initial()).unwrap();
    let r = last_move_ki2(&c.usi).unwrap();
    assert_eq!(r, None);
}

#[test]
fn board_renders_to_png() {
    let (bytes, w, h) = pos2img("startpos moves 7g7f");
    assert!(bytes.len() > 8);
    assert_eq!(&bytes[..4], &[0x89, b'P', b'N', b'G']);
    assert!(w > 0 && h > 0);
    let (bytes2, w2, h2) = pos2img("startpos moves 7g7f");
    assert_eq!(bytes, bytes2);
    assert_eq!((w, h), (w2, h2));
}
