//! The state codec: round trips, permissive decoding, and move tokens.

use shogi_thread_bot::codec::{decode, encode, GameRecord};
use shogi_thread_bot::moves::{move_usi_string, parse_usi_move, GameMove, PieceKind, Square};
use shogi_thread_bot::text::to_chars;

fn sq(file: u8, rank: u8) -> Square {
    Square { file, rank }
}

#[test]
fn encode_initial_is_startpos() {
    let rec = GameRecord::initial();
    assert_eq!(encode(&rec), "startpos");
}

#[test]
fn encode_with_moves() {
    let rec = GameRecord {
        start: None,
        moves: vec![
            GameMove::Normal { from: sq(7, 7), to: sq(7, 6), promote: false },
            GameMove::Normal { from: sq(3, 3), to: sq(3, 4), promote: false },
            GameMove::Normal { from: sq(8, 8), to: sq(2, 2), promote: true },
            GameMove::Drop { piece: PieceKind::Pawn, to: sq(3, 4) },
        ],
    };
    assert_eq!(encode(&rec), "startpos moves 7g7f 3c3d 8h2b+ P*3d");
}

#[test]
fn decode_encode_round_trip() {
    let moves = vec![
        GameMove::Normal { from: sq(7, 7), to: sq(7, 6), promote: false },
        GameMove::Normal { from: sq(3, 3), to: sq(3, 4), promote: false },
        GameMove::Normal { from: sq(8, 8), to: sq(2, 2), promote: true },
        GameMove::Drop { piece: PieceKind::Silver, to: sq(5, 5) },
    ];
    let rec = GameRecord { start: None, moves: moves.clone() };
    let back = decode(encode(&rec).as_str());
    assert_eq!(back.moves, moves);
}

#[test]
fn decode_empty_yields_initial() {
    assert_eq!(decode("").moves.len(), 0);
}

#[test]
fn decode_garbage_yields_initial() {
    assert_eq!(decode("not a position at all #!?").moves.len(), 0);
    assert_eq!(decode("startpos moves 7g7g7").moves.len(), 0);
    assert_eq!(decode("startpos moves").moves.len(), 0);
    // Malformed snapshot fields fall back to the initial state too.
    let bad = decode("sfen lnsg?gsnl/9/9/9/9/9/9/9/9 b - 1 moves 7g7f");
    assert!(bad.start.is_none());
    assert_eq!(bad.moves.len(), 0);
    let bad = decode("sfen 9/9/9/9/9/9/9/9/9 x - 1 moves 7g7f");
    assert_eq!(bad.moves.len(), 0);
    let bad = decode("sfen 9/9/9/9/9/9/9/9/9 b - 0 moves 7g7f");
    assert_eq!(bad.moves.len(), 0);
    let bad = decode("sfen 9/9/9/9/9/9/9/9/9 b - 12345 moves 7g7f");
    assert_eq!(bad.moves.len(), 0);
}

#[test]
fn decode_startpos_only() {
    assert_eq!(decode("startpos").moves.len(), 0);
}

#[test]
fn decode_collapses_space_runs() {
    let rec = decode(" startpos  moves   7g7f ");
    assert!(rec.start.is_none());
    assert_eq!(
        rec.moves,
        vec![GameMove::Normal { from: sq(7, 7), to: sq(7, 6), promote: false }]
    );
}

#[test]
fn decode_snapshot_of_the_standard_start_normalizes() {
    let s = "sfen lnsgkgsnl/1r5b1/ppppppppp/9/9/9/PPPPPPPPP/1B5R1/LNSGKGSNL b - 1 moves 7g7f";
    let rec = decode(s);
    assert!(rec.start.is_none());
    assert_eq!(
        rec.moves,
        vec![GameMove::Normal { from: sq(7, 7), to: sq(7, 6), promote: false }]
    );
    assert_eq!(encode(&rec), "startpos moves 7g7f");
    let bare = "sfen lnsgkgsnl/1r5b1/ppppppppp/9/9/9/PPPPPPPPP/1B5R1/LNSGKGSNL b - 1";
    assert_eq!(decode(bare).moves.len(), 0);
}

#[test]
fn decode_midgame_snapshot_keeps_the_start_state() {
    // A full-state snapshot that is not the standard start is kept, and
    // encoding gives the exact token back.
    let s = "sfen lnsgkgsnl/1r5b1/ppppppppp/9/9/9/PPPPPPPPP/1B5R1/LNSGKGSNL w - 2 moves 3c3d";
    let rec = decode(s);
    let sn = rec.start.as_ref().expect("snapshot expected");
    assert!(sn.white_to_move);
    assert_eq!(sn.ply, 2);
    assert_eq!(
        rec.moves,
        vec![GameMove::Normal { from: sq(3, 3), to: sq(3, 4), promote: false }]
    );
    assert_eq!(encode(&rec), s);
    let back = decode(encode(&rec).as_str());
    assert_eq!(back.moves, rec.moves);
    assert!(back.start.is_some());
}

#[test]
fn decode_bare_midgame_snapshot() {
    let s = "sfen 4k4/9/9/9/9/9/9/9/4K4 b 2Pp 33";
    let rec = decode(s);
    let sn = rec.start.as_ref().expect("snapshot expected");
    assert!(!sn.white_to_move);
    assert_eq!(sn.ply, 33);
    assert_eq!(rec.moves.len(), 0);
    assert_eq!(encode(&rec), s);
}

#[test]
fn move_token_parse_and_print() {
    let t = to_chars("7g7f");
    assert_eq!(
        parse_usi_move(&t),
        Some(GameMove::Normal { from: sq(7, 7), to: sq(7, 6), promote: false })
    );
    let t = to_chars("P*3d");
    assert_eq!(
        parse_usi_move(&t),
        Some(GameMove::Drop { piece: PieceKind::Pawn, to: sq(3, 4) })
    );
    let t = to_chars("8h2b+");
    let m = parse_usi_move(&t).unwrap();
    assert_eq!(move_usi_string(&m), "8h2b+");
    assert_eq!(parse_usi_move(&to_chars("p*3d")), None);
    assert_eq!(parse_usi_move(&to_chars("7g7j")), None);
    assert_eq!(parse_usi_move(&to_chars("0g7f")), None);
    assert_eq!(parse_usi_move(&to_chars("7g7f++")), None);
    assert_eq!(parse_usi_move(&to_chars("")), None);
}
