//! The persisted game state and its textual encoding.
//!
//! A game is a list of moves played either from the standard starting
//! arrangement or from a spelled-out start-state snapshot. The encoder emits
//! the move-transcript shape, `startpos moves 7g7f ...`, for games from the
//! standard arrangement, and keeps the snapshot shape, `sfen <board> <side>
//! <hands> <ply> moves ...`, for games that began from one. The decoder
//! accepts both shapes and falls back to the initial state on anything
//! malformed, so a decode never fails.

use vstd::prelude::*;

use crate::moves::{lemma_move_roundtrip, lemma_move_usi_no_ws, move_of_usi, usi_of_move};
use crate::moves::{parse_usi_move, GameMove};
use crate::text::{lemma_first_space_at, to_chars, tokenize, tokens_of};

verus! {

/// A start-state snapshot, as the snapshot shape spells it: the board and
/// hand fields kept as their validated tokens, the side to move, and the
/// move count the game starts at, both as its token and as a number.
pub struct Snapshot {
    pub board: Vec<char>,
    pub white_to_move: bool,
    pub hands: Vec<char>,
    pub ply_digits: Vec<char>,
    pub ply: u16,
}

/// The mathematical model of a snapshot.
#[verifier::ext_equal]
pub struct SnapModel {
    pub board: Seq<char>,
    pub white: bool,
    pub hands: Seq<char>,
    pub ply_digits: Seq<char>,
}

/// The mathematical model of a game state: an optional start-state snapshot
/// and the moves played from it.
#[verifier::ext_equal]
pub struct RecModel {
    pub start: Option<SnapModel>,
    pub moves: Seq<GameMove>,
}

/// The model of a fresh game.
pub open spec fn initial_model() -> RecModel {
    RecModel { start: None, moves: Seq::empty() }
}

/// A reachable game state. The side to move and the displayed move number
/// follow from the snapshot's move count and the number of moves made.
pub struct GameRecord {
    pub start: Option<Snapshot>,
    pub moves: Vec<GameMove>,
}

pub open spec fn snap_model(sn: Snapshot) -> SnapModel {
    SnapModel {
        board: sn.board@,
        white: sn.white_to_move,
        hands: sn.hands@,
        ply_digits: sn.ply_digits@,
    }
}

impl GameRecord {
    pub open spec fn model(self) -> RecModel {
        RecModel {
            start: match self.start {
                Some(sn) => Some(snap_model(sn)),
                None => None,
            },
            moves: self.moves@,
        }
    }

    pub open spec fn wf(self) -> bool {
        &&& model_wf(self.model())
        &&& match self.start {
            Some(sn) => sn.ply as int == ply_val(sn.ply_digits@),
            None => true,
        }
    }

    /// The state of a fresh game: no moves played.
    pub fn initial() -> (r: GameRecord)
        ensures
            r.model() == initial_model(),
            r.wf(),
    {
        let r = GameRecord { start: None, moves: Vec::new() };
        proof {
            assert(r.model() =~= initial_model());
        }
        r
    }
}

/// The decimal digits.
pub open spec fn is_digit(c: char) -> bool {
    c == '0' || c == '1' || c == '2' || c == '3' || c == '4' || c == '5' || c == '6' || c == '7'
        || c == '8' || c == '9'
}

/// The value of a decimal digit, 0 for anything else.
pub open spec fn dval(c: char) -> int {
    if c == '1' {
        1
    } else if c == '2' {
        2
    } else if c == '3' {
        3
    } else if c == '4' {
        4
    } else if c == '5' {
        5
    } else if c == '6' {
        6
    } else if c == '7' {
        7
    } else if c == '8' {
        8
    } else if c == '9' {
        9
    } else {
        0
    }
}

/// The value of a digit string, most significant digit first.
pub open spec fn ply_val(s: Seq<char>) -> int
    decreases s.len(),
{
    if s.len() == 0 {
        0
    } else {
        ply_val(s.drop_last()) * 10 + dval(s.last())
    }
}

pub open spec fn pow10(n: nat) -> int
    decreases n,
{
    if n == 0 {
        1
    } else {
        10 * pow10((n - 1) as nat)
    }
}

/// A digit string's value is below ten to its length.
proof fn lemma_ply_val_bound(s: Seq<char>)
    ensures
        0 <= ply_val(s) < pow10(s.len()),
    decreases s.len(),
{
    if s.len() > 0 {
        lemma_ply_val_bound(s.drop_last());
        assert(dval(s.last()) <= 9);
    }
}

/// The letters that may name a piece in a board or hand field.
pub open spec fn piece_letter(c: char) -> bool {
    c == 'p' || c == 'l' || c == 'n' || c == 's' || c == 'g' || c == 'b' || c == 'r' || c == 'k'
        || c == 'P' || c == 'L' || c == 'N' || c == 'S' || c == 'G' || c == 'B' || c == 'R' || c
        == 'K'
}

/// What a board field may hold: piece letters, promotion marks, empty-run
/// digits and rank separators.
pub open spec fn board_char_ok(c: char) -> bool {
    piece_letter(c) || (is_digit(c) && c != '0') || c == '+' || c == '/'
}

/// How many rank separators a board field holds.
pub open spec fn slash_count(s: Seq<char>) -> int
    decreases s.len(),
{
    if s.len() == 0 {
        0
    } else {
        slash_count(s.drop_last()) + (if s.last() == '/' {
            1int
        } else {
            0int
        })
    }
}

/// A board field: nonempty, made of board characters, its nine ranks
/// separated by eight slashes.
pub open spec fn valid_board(s: Seq<char>) -> bool {
    &&& s.len() > 0
    &&& (forall|j: int| 0 <= j < s.len() ==> board_char_ok(#[trigger] s[j]))
    &&& slash_count(s) == 8
}

/// What a hands field may hold: `-` for empty hands, else counted piece
/// letters.
pub open spec fn hands_char_ok(c: char) -> bool {
    piece_letter(c) || is_digit(c)
}

pub open spec fn valid_hands(s: Seq<char>) -> bool {
    s == seq!['-'] || (s.len() > 0 && forall|j: int|
        0 <= j < s.len() ==> hands_char_ok(#[trigger] s[j]))
}

pub open spec fn side_token_ok(s: Seq<char>) -> bool {
    s == seq!['b'] || s == seq!['w']
}

/// A move-count field: one to four digits, value at least one.
pub open spec fn valid_ply(s: Seq<char>) -> bool {
    1 <= s.len() <= 4 && (forall|j: int| 0 <= j < s.len() ==> is_digit(#[trigger] s[j]))
        && ply_val(s) >= 1
}

pub open spec fn snap_wf(sn: SnapModel) -> bool {
    &&& valid_board(sn.board)
    &&& valid_hands(sn.hands)
    &&& valid_ply(sn.ply_digits)
}

/// The snapshot that spells out exactly the standard starting arrangement.
/// It is never kept: decoding normalizes it to the transcript shape, so a
/// well-formed state holds no such snapshot.
pub open spec fn initial_snap(sn: SnapModel) -> bool {
    &&& sn.board == initial_board()
    &&& !sn.white
    &&& sn.hands == seq!['-']
    &&& sn.ply_digits == seq!['1']
}

pub open spec fn model_wf(m: RecModel) -> bool {
    &&& forall|k: int| 0 <= k < m.moves.len() ==> (#[trigger] m.moves[k]).wf()
    &&& match m.start {
        Some(sn) => snap_wf(sn) && !initial_snap(sn),
        None => true,
    }
}

/// The move number the state starts counting from: a snapshot's move count,
/// one for a fresh game.
pub open spec fn base_ply(m: RecModel) -> int {
    match m.start {
        Some(sn) => ply_val(sn.ply_digits),
        None => 1,
    }
}

/// The displayed number of the latest move.
pub open spec fn display_number(m: RecModel) -> int {
    base_ply(m) + m.moves.len() - 1
}

/// The encoding of the move list: one leading space before each move token.
pub open spec fn enc_tail(ms: Seq<GameMove>) -> Seq<char>
    decreases ms.len(),
{
    if ms.len() == 0 {
        Seq::empty()
    } else {
        seq![' '] + usi_of_move(ms[0]) + enc_tail(ms.skip(1))
    }
}

/// The `moves` section, absent while no move was played.
pub open spec fn moves_part(ms: Seq<GameMove>) -> Seq<char> {
    if ms.len() == 0 {
        Seq::empty()
    } else {
        " moves"@ + enc_tail(ms)
    }
}

/// The encoded form of a game from the standard starting arrangement.
pub open spec fn spec_encode(ms: Seq<GameMove>) -> Seq<char> {
    "startpos"@ + moves_part(ms)
}

/// The snapshot shape's prefix: the keyword and the four state fields.
pub open spec fn sfen_prefix(sn: SnapModel) -> Seq<char> {
    "sfen"@ + seq![' '] + sn.board + seq![' '] + (if sn.white {
        seq!['w']
    } else {
        seq!['b']
    }) + seq![' '] + sn.hands + seq![' '] + sn.ply_digits
}

/// The encoded form of a game state, in whichever shape carries its start.
pub open spec fn spec_encode_m(m: RecModel) -> Seq<char> {
    match m.start {
        None => spec_encode(m.moves),
        Some(sn) => sfen_prefix(sn) + moves_part(m.moves),
    }
}

/// Every token from `j` on parses as a move.
pub open spec fn tail_parses(toks: Seq<Seq<char>>, j: int) -> bool {
    forall|k: int| j <= k < toks.len() ==> (#[trigger] move_of_usi(toks[k])) is Some
}

/// The moves the tokens from `j` on denote.
pub open spec fn parsed_moves(toks: Seq<Seq<char>>, j: int) -> Seq<GameMove> {
    Seq::new((toks.len() - j) as nat, |k: int| move_of_usi(toks[j + k]).unwrap())
}

/// The board field of the standard starting arrangement.
pub open spec fn initial_board() -> Seq<char> {
    "lnsgkgsnl/1r5b1/ppppppppp/9/9/9/PPPPPPPPP/1B5R1/LNSGKGSNL"@
}

/// The nonempty tokens: empty tokens only mark leading, trailing or
/// repeated spaces, so a run of spaces separates like a single one.
pub open spec fn words(toks: Seq<Seq<char>>) -> Seq<Seq<char>>
    decreases toks.len(),
{
    if toks.len() == 0 {
        Seq::empty()
    } else {
        (if toks[0].len() > 0 {
            seq![toks[0]]
        } else {
            Seq::empty()
        }) + words(toks.skip(1))
    }
}

/// Dropping empty tokens leaves a sequence of nonempty tokens unchanged.
proof fn lemma_words_identity(toks: Seq<Seq<char>>)
    requires
        forall|k: int| 0 <= k < toks.len() ==> (#[trigger] toks[k]).len() > 0,
    ensures
        words(toks) == toks,
    decreases toks.len(),
{
    if toks.len() > 0 {
        assert forall|k: int| 0 <= k < toks.skip(1).len() implies (#[trigger] toks.skip(
            1,
        )[k]).len() > 0 by {
            assert(toks.skip(1)[k] == toks[k + 1]);
        }
        lemma_words_identity(toks.skip(1));
        assert(words(toks) =~= toks);
    }
}

/// An optional `moves` section beginning at token `j`.
pub open spec fn state_tail(toks: Seq<Seq<char>>, j: int) -> Option<Seq<GameMove>> {
    if toks.len() == j {
        Some(Seq::empty())
    } else if toks.len() >= j + 2 && toks[j] == "moves"@ && tail_parses(toks, j + 1) {
        Some(parsed_moves(toks, j + 1))
    } else {
        None
    }
}

/// The game state a token sequence denotes, if it is a valid encoding: the
/// transcript shape, the snapshot shape spelling the standard start (which
/// normalizes to the transcript shape), or a general snapshot.
pub open spec fn valid_state(toks: Seq<Seq<char>>) -> Option<RecModel> {
    if toks.len() >= 1 && toks[0] == "startpos"@ {
        match state_tail(toks, 1) {
            Some(ms) => Some(RecModel { start: None, moves: ms }),
            None => None,
        }
    } else if toks.len() >= 5 && toks[0] == "sfen"@ && toks[1] == initial_board() && toks[2]
        == seq!['b'] && toks[3] == seq!['-'] && toks[4] == seq!['1'] {
        match state_tail(toks, 5) {
            Some(ms) => Some(RecModel { start: None, moves: ms }),
            None => None,
        }
    } else if toks.len() >= 5 && toks[0] == "sfen"@ && valid_board(toks[1]) && side_token_ok(
        toks[2],
    ) && valid_hands(toks[3]) && valid_ply(toks[4]) {
        match state_tail(toks, 5) {
            Some(ms) => Some(
                RecModel {
                    start: Some(
                        SnapModel {
                            board: toks[1],
                            white: toks[2] == seq!['w'],
                            hands: toks[3],
                            ply_digits: toks[4],
                        },
                    ),
                    moves: ms,
                },
            ),
            None => None,
        }
    } else {
        None
    }
}

/// What decoding yields: the denoted state of a valid encoding, the initial
/// state for everything else.
pub open spec fn spec_decode(s: Seq<char>) -> RecModel {
    match valid_state(words(tokens_of(s))) {
        Some(m) => m,
        None => initial_model(),
    }
}

/// Splitting a concatenation encodes both parts in turn.
proof fn lemma_enc_tail_concat(a: Seq<GameMove>, b: Seq<GameMove>)
    ensures
        enc_tail(a + b) == enc_tail(a) + enc_tail(b),
    decreases a.len(),
{
    if a.len() == 0 {
        assert(a + b =~= b);
        assert(enc_tail(a) + enc_tail(b) =~= enc_tail(b));
    } else {
        assert((a + b).skip(1) =~= a.skip(1) + b);
        lemma_enc_tail_concat(a.skip(1), b);
        assert((a + b)[0] == a[0]);
        assert(seq![' '] + usi_of_move(a[0]) + (enc_tail(a.skip(1)) + enc_tail(b)) =~= (seq![' ']
            + usi_of_move(a[0]) + enc_tail(a.skip(1))) + enc_tail(b));
    }
}

/// A space-free word followed by a space and a remainder tokenizes as that
/// word, then the remainder's tokens.
proof fn lemma_tokens_prepend(x: Seq<char>, rest: Seq<char>)
    requires
        forall|j: int| 0 <= j < x.len() ==> x[j] != ' ',
    ensures
        tokens_of(x + seq![' '] + rest) == seq![x] + tokens_of(rest),
{
    let s = x + seq![' '] + rest;
    assert forall|j: int| 0 <= j < x.len() implies s[j] != ' ' by {
        assert(s[j] == x[j]);
    }
    assert(s[x.len() as int] == ' ');
    lemma_first_space_at(s, x.len() as int);
    assert(s.take(x.len() as int) =~= x);
    assert(s.skip(x.len() as int + 1) =~= rest);
}

/// A space-free word is one token.
proof fn lemma_tokens_single(x: Seq<char>)
    requires
        forall|j: int| 0 <= j < x.len() ==> x[j] != ' ',
    ensures
        tokens_of(x) == seq![x],
{
    lemma_first_space_at(x, x.len() as int);
}

/// The notation sequence of a move list.
pub open spec fn usi_seq(ms: Seq<GameMove>) -> Seq<Seq<char>> {
    Seq::new(ms.len(), |k: int| usi_of_move(ms[k]))
}

/// A space-free word followed by an encoded move list tokenizes as the word,
/// then the moves' notations.
proof fn lemma_tokens_word_tail(w: Seq<char>, ms: Seq<GameMove>)
    requires
        forall|j: int| 0 <= j < w.len() ==> w[j] != ' ',
        forall|k: int| 0 <= k < ms.len() ==> (#[trigger] ms[k]).wf(),
    ensures
        tokens_of(w + enc_tail(ms)) == seq![w] + usi_seq(ms),
    decreases ms.len(),
{
    if ms.len() == 0 {
        assert(w + enc_tail(ms) =~= w);
        lemma_tokens_single(w);
        assert(seq![w] + usi_seq(ms) =~= seq![w]);
    } else {
        let u = usi_of_move(ms[0]);
        lemma_move_usi_no_ws(ms[0]);
        assert forall|j: int| 0 <= j < u.len() implies u[j] != ' ' by {
            assert(!crate::text::is_ws(u[j]));
        }
        assert(w + enc_tail(ms) =~= w + seq![' '] + (u + enc_tail(ms.skip(1))));
        lemma_tokens_prepend(w, u + enc_tail(ms.skip(1)));
        lemma_tokens_word_tail(u, ms.skip(1));
        assert(seq![w] + (seq![u] + usi_seq(ms.skip(1))) =~= seq![w] + usi_seq(ms));
    }
}

/// A space-free word followed by the `moves` section tokenizes as the word,
/// `moves` if any, and the moves' notations.
proof fn lemma_tokens_word_moves(w: Seq<char>, ms: Seq<GameMove>)
    requires
        forall|j: int| 0 <= j < w.len() ==> w[j] != ' ',
        forall|k: int| 0 <= k < ms.len() ==> (#[trigger] ms[k]).wf(),
    ensures
        ms.len() == 0 ==> tokens_of(w + moves_part(ms)) == seq![w],
        ms.len() > 0 ==> tokens_of(w + moves_part(ms)) == seq![w, "moves"@] + usi_seq(ms),
{
    reveal_strlit("moves");
    reveal_strlit(" moves");
    if ms.len() == 0 {
        assert(w + moves_part(ms) =~= w);
        lemma_tokens_single(w);
    } else {
        assert(w + moves_part(ms) =~= w + seq![' '] + ("moves"@ + enc_tail(ms)));
        assert forall|j: int| 0 <= j < "moves"@.len() implies "moves"@[j] != ' ' by {}
        lemma_tokens_prepend(w, "moves"@ + enc_tail(ms));
        lemma_tokens_word_tail("moves"@, ms);
        assert(seq![w] + (seq!["moves"@] + usi_seq(ms)) =~= seq![w, "moves"@] + usi_seq(ms));
    }
}

/// No field of a well-formed snapshot holds a space.
proof fn lemma_snap_fields_no_space(sn: SnapModel)
    requires
        snap_wf(sn),
    ensures
        forall|j: int| 0 <= j < sn.board.len() ==> sn.board[j] != ' ',
        forall|j: int| 0 <= j < sn.hands.len() ==> sn.hands[j] != ' ',
        forall|j: int| 0 <= j < sn.ply_digits.len() ==> sn.ply_digits[j] != ' ',
{
    assert forall|j: int| 0 <= j < sn.board.len() implies sn.board[j] != ' ' by {
        assert(board_char_ok(sn.board[j]));
    }
    if sn.hands != seq!['-'] {
        assert forall|j: int| 0 <= j < sn.hands.len() implies sn.hands[j] != ' ' by {
            assert(hands_char_ok(sn.hands[j]));
        }
    }
    assert forall|j: int| 0 <= j < sn.ply_digits.len() implies sn.ply_digits[j] != ' ' by {
        assert(is_digit(sn.ply_digits[j]));
    }
}

/// The tokens of an encoded state, shape by shape.
proof fn lemma_tokens_of_encode(m: RecModel)
    requires
        model_wf(m),
    ensures
        m.start is None && m.moves.len() == 0 ==> tokens_of(spec_encode_m(m)) == seq![
            "startpos"@,
        ],
        m.start is None && m.moves.len() > 0 ==> tokens_of(spec_encode_m(m)) == seq![
            "startpos"@,
            "moves"@,
        ] + usi_seq(m.moves),
        m.start matches Some(sn) ==> {
            let side = if sn.white {
                seq!['w']
            } else {
                seq!['b']
            };
            &&& (m.moves.len() == 0 ==> tokens_of(spec_encode_m(m)) == seq![
                "sfen"@,
                sn.board,
                side,
                sn.hands,
                sn.ply_digits,
            ])
            &&& (m.moves.len() > 0 ==> tokens_of(spec_encode_m(m)) == seq![
                "sfen"@,
                sn.board,
                side,
                sn.hands,
                sn.ply_digits,
                "moves"@,
            ] + usi_seq(m.moves))
        },
{
    reveal_strlit("startpos");
    reveal_strlit("sfen");
    match m.start {
        None => {
            assert forall|j: int| 0 <= j < "startpos"@.len() implies "startpos"@[j] != ' ' by {}
            lemma_tokens_word_moves("startpos"@, m.moves);
        },
        Some(sn) => {
            lemma_snap_fields_no_space(sn);
            let side = if sn.white {
                seq!['w']
            } else {
                seq!['b']
            };
            let r4 = sn.ply_digits + moves_part(m.moves);
            let r3 = sn.hands + seq![' '] + r4;
            let r2 = side + seq![' '] + r3;
            let r1 = sn.board + seq![' '] + r2;
            assert(spec_encode_m(m) =~= "sfen"@ + seq![' '] + r1);
            assert forall|j: int| 0 <= j < "sfen"@.len() implies "sfen"@[j] != ' ' by {}
            lemma_tokens_prepend("sfen"@, r1);
            lemma_tokens_prepend(sn.board, r2);
            assert forall|j: int| 0 <= j < side.len() implies side[j] != ' ' by {}
            lemma_tokens_prepend(side, r3);
            lemma_tokens_prepend(sn.hands, r4);
            lemma_tokens_word_moves(sn.ply_digits, m.moves);
            if m.moves.len() == 0 {
                assert(seq!["sfen"@] + (seq![sn.board] + (seq![side] + (seq![sn.hands] + seq![
                    sn.ply_digits,
                ]))) =~= seq!["sfen"@, sn.board, side, sn.hands, sn.ply_digits]);
            } else {
                assert(seq!["sfen"@] + (seq![sn.board] + (seq![side] + (seq![sn.hands] + (seq![
                    sn.ply_digits,
                    "moves"@,
                ] + usi_seq(m.moves))))) =~= seq![
                    "sfen"@,
                    sn.board,
                    side,
                    sn.hands,
                    sn.ply_digits,
                    "moves"@,
                ] + usi_seq(m.moves));
            }
        },
    }
}

/// Decoding an encoded state gives back exactly the state that was encoded,
/// for every well-formed state.
pub proof fn lemma_round_trip(m: RecModel)
    requires
        model_wf(m),
    ensures
        spec_decode(spec_encode_m(m)) == m,
{
    reveal_strlit("startpos");
    reveal_strlit("moves");
    reveal_strlit("sfen");
    reveal_strlit("b");
    reveal_strlit("w");
    reveal_strlit("-");
    reveal_strlit("1");
    lemma_tokens_of_encode(m);
    let toks = tokens_of(spec_encode_m(m));
    assert forall|k: int| 0 <= k < toks.len() implies (#[trigger] toks[k]).len() > 0 by {
        match m.start {
            None => {
                if m.moves.len() > 0 && k >= 2 {
                    assert(toks[k] == usi_seq(m.moves)[k - 2]);
                    lemma_move_usi_no_ws(m.moves[k - 2]);
                }
            },
            Some(sn) => {
                if m.moves.len() > 0 && k >= 6 {
                    assert(toks[k] == usi_seq(m.moves)[k - 6]);
                    lemma_move_usi_no_ws(m.moves[k - 6]);
                }
            },
        }
    }
    lemma_words_identity(toks);
    let j: int = match m.start {
        None => 1,
        Some(_) => 5,
    };
    match m.start {
        None => {
            assert(toks[0] == "startpos"@);
        },
        Some(sn) => {
            assert(toks[0] == "sfen"@);
            assert(toks[0] != "startpos"@);
            let side = if sn.white {
                seq!['w']
            } else {
                seq!['b']
            };
            assert(toks[2] == side);
            assert(seq!['w'][0] == 'w');
            assert(seq!['b'][0] == 'b');
            // The normalizing branch does not apply: a well-formed snapshot
            // is not the spelled-out standard start.
            assert(!(toks[1] == initial_board() && toks[2] == seq!['b'] && toks[3] == seq!['-']
                && toks[4] == seq!['1'])) by {
                if toks[1] == initial_board() && toks[2] == seq!['b'] && toks[3] == seq!['-']
                    && toks[4] == seq!['1'] {
                    if sn.white {
                        assert(side[0] == 'w');
                        assert(toks[2][0] == 'b');
                    } else {
                        assert(sn.board == initial_board());
                        assert(initial_snap(sn));
                    }
                }
            }
            assert((toks[2] == seq!['w']) == sn.white) by {
                if !sn.white && toks[2] == seq!['w'] {
                    assert(toks[2][0] == 'b');
                }
            }
        },
    }
    if m.moves.len() == 0 {
        assert(state_tail(toks, j) == Some(Seq::<GameMove>::empty()));
    } else {
        assert(toks[j] == "moves"@);
        assert(toks.len() == m.moves.len() + j + 1);
        assert forall|k: int| j + 1 <= k < toks.len() implies (#[trigger] move_of_usi(
            toks[k],
        )) is Some by {
            assert(toks[k] == usi_seq(m.moves)[k - (j + 1)]);
            lemma_move_roundtrip(m.moves[k - (j + 1)]);
        }
        assert(parsed_moves(toks, j + 1) =~= m.moves) by {
            assert forall|k: int| 0 <= k < m.moves.len() implies parsed_moves(toks, j + 1)[k]
                == m.moves[k] by {
                assert(toks[j + 1 + k] == usi_seq(m.moves)[k]);
                lemma_move_roundtrip(m.moves[k]);
            }
        }
    }
    assert(spec_decode(spec_encode_m(m)) =~~= m);
}

/// Any string that is not a valid encoding decodes to the initial state:
/// decoding is total and falls back rather than failing.
pub proof fn lemma_decode_fallback(s: Seq<char>)
    ensures
        valid_state(words(tokens_of(s))) is None ==> spec_decode(s) == initial_model(),
        valid_state(words(tokens_of(s))) is Some ==> spec_decode(s) == valid_state(
            words(tokens_of(s)),
        ).unwrap(),
{
}

/// Whatever decoding yields is well formed.
pub proof fn lemma_decode_wf(s: Seq<char>)
    ensures
        model_wf(spec_decode(s)),
{
    let toks = words(tokens_of(s));
    let m = spec_decode(s);
    if valid_state(toks) is Some {
        let j: int = if toks.len() >= 1 && toks[0] == "startpos"@ {
            1
        } else {
            5
        };
        assert forall|k: int| 0 <= k < m.moves.len() implies (#[trigger] m.moves[k]).wf() by {
            crate::moves::lemma_parsed_move_wf(toks[j + 1 + k]);
        }
        if m.start is Some {
            assert(!(toks[1] == initial_board() && toks[2] == seq!['b'] && toks[3] == seq!['-']
                && toks[4] == seq!['1']));
        }
    }
}

/// Encode a game state for embedding in a post.
pub fn encode(rec: &GameRecord) -> (r: String)
    requires
        rec.wf(),
    ensures
        r@ == spec_encode_m(rec.model()),
{
    let mut s: String;
    match &rec.start {
        None => {
            s = String::from_str("startpos");
        },
        Some(sn) => {
            s = String::from_str("sfen ");
            crate::text::append_chars(&mut s, &sn.board);
            if sn.white_to_move {
                s.append(" w ");
            } else {
                s.append(" b ");
            }
            crate::text::append_chars(&mut s, &sn.hands);
            s.append(" ");
            crate::text::append_chars(&mut s, &sn.ply_digits);
            proof {
                reveal_strlit("sfen");
                reveal_strlit("sfen ");
                reveal_strlit(" w ");
                reveal_strlit(" b ");
                reveal_strlit(" ");
                assert(s@ =~= sfen_prefix(snap_model(*sn)));
            }
        },
    }
    let ghost prefix = s@;
    if rec.moves.len() == 0 {
        proof {
            assert(prefix + moves_part(rec.moves@) =~= prefix);
            assert(s@ =~= spec_encode_m(rec.model()));
        }
        return s;
    }
    s.append(" moves");
    proof {
        reveal_strlit(" moves");
        assert(rec.moves@.take(0) =~= Seq::<GameMove>::empty());
        assert(s@ =~= prefix + " moves"@ + enc_tail(rec.moves@.take(0)));
    }
    let n = rec.moves.len();
    let mut i: usize = 0;
    while i < n
        invariant
            0 <= i <= n,
            n == rec.moves@.len(),
            rec.wf(),
            s@ == prefix + " moves"@ + enc_tail(rec.moves@.take(i as int)),
        decreases n - i,
    {
        s.append(" ");
        proof {
            assert(rec.model().moves[i as int].wf());
            assert(rec.model().moves[i as int] == rec.moves@[i as int]);
        }
        crate::moves::append_move_usi(&mut s, rec.moves.get(i).unwrap());
        proof {
            reveal_strlit(" ");
            let pre = rec.moves@.take(i as int);
            let one = seq![rec.moves@[i as int]];
            lemma_enc_tail_concat(pre, one);
            assert(pre + one =~= rec.moves@.take(i + 1 as int));
            assert(one.skip(1) =~= Seq::<GameMove>::empty());
            assert(enc_tail(Seq::<GameMove>::empty()) =~= Seq::<char>::empty());
            assert(enc_tail(one) =~= seq![' '] + usi_of_move(rec.moves@[i as int]));
            assert(" "@ =~= seq![' ']);
            assert(s@ =~= prefix + " moves"@ + enc_tail(rec.moves@.take(i + 1 as int)));
        }
        i = i + 1;
    }
    proof {
        assert(rec.moves@.take(n as int) =~= rec.moves@);
        assert(prefix + " moves"@ + enc_tail(rec.moves@) =~= prefix + (" moves"@ + enc_tail(
            rec.moves@,
        )));
        assert(s@ =~= spec_encode_m(rec.model()));
    }
    s
}

/// Whether a token equals a given literal.
fn tok_eq(t: &Vec<char>, lit: &str) -> (r: bool)
    ensures
        r == (t@ == lit@),
{
    let n = lit.unicode_len();
    if t.len() != n {
        proof {
            if t@ == lit@ {
                assert(t@.len() == lit@.len());
            }
        }
        return false;
    }
    let mut i: usize = 0;
    while i < n
        invariant
            0 <= i <= n,
            n == lit@.len(),
            n == t@.len(),
            forall|j: int| 0 <= j < i ==> t@[j] == lit@[j],
        decreases n - i,
    {
        if *t.get(i).unwrap() != lit.get_char(i) {
            return false;
        }
        i = i + 1;
    }
    proof {
        assert(t@ =~= lit@);
    }
    true
}

/// A fresh copy of a token.
fn copy_chars(t: &Vec<char>) -> (r: Vec<char>)
    ensures
        r@ == t@,
{
    let mut r: Vec<char> = Vec::new();
    let n = t.len();
    let mut i: usize = 0;
    while i < n
        invariant
            0 <= i <= n,
            n == t@.len(),
            r@ == t@.take(i as int),
        decreases n - i,
    {
        r.push(*t.get(i).unwrap());
        proof {
            assert(r@ =~= t@.take(i + 1 as int));
        }
        i = i + 1;
    }
    proof {
        assert(r@ =~= t@);
    }
    r
}

fn is_digit_x(c: char) -> (r: bool)
    ensures
        r == is_digit(c),
{
    c == '0' || c == '1' || c == '2' || c == '3' || c == '4' || c == '5' || c == '6' || c == '7'
        || c == '8' || c == '9'
}

fn dval_x(c: char) -> (r: u32)
    ensures
        r as int == dval(c),
{
    if c == '1' {
        1
    } else if c == '2' {
        2
    } else if c == '3' {
        3
    } else if c == '4' {
        4
    } else if c == '5' {
        5
    } else if c == '6' {
        6
    } else if c == '7' {
        7
    } else if c == '8' {
        8
    } else if c == '9' {
        9
    } else {
        0
    }
}

fn piece_letter_x(c: char) -> (r: bool)
    ensures
        r == piece_letter(c),
{
    c == 'p' || c == 'l' || c == 'n' || c == 's' || c == 'g' || c == 'b' || c == 'r' || c == 'k'
        || c == 'P' || c == 'L' || c == 'N' || c == 'S' || c == 'G' || c == 'B' || c == 'R' || c
        == 'K'
}

fn check_board(t: &Vec<char>) -> (r: bool)
    ensures
        r == valid_board(t@),
{
    if t.len() == 0 {
        return false;
    }
    let n = t.len();
    let mut i: usize = 0;
    let mut slashes: usize = 0;
    proof {
        assert(t@.take(0) =~= Seq::<char>::empty());
    }
    while i < n
        invariant
            0 <= i <= n,
            n == t@.len(),
            forall|j: int| 0 <= j < i ==> board_char_ok(#[trigger] t@[j]),
            slashes <= i,
            slashes as int == slash_count(t@.take(i as int)),
        decreases n - i,
    {
        let c = *t.get(i).unwrap();
        if !(piece_letter_x(c) || (is_digit_x(c) && c != '0') || c == '+' || c == '/') {
            proof {
                assert(!board_char_ok(t@[i as int]));
            }
            return false;
        }
        proof {
            assert(t@.take(i + 1 as int).drop_last() =~= t@.take(i as int));
            assert(t@.take(i + 1 as int).last() == t@[i as int]);
        }
        if c == '/' {
            slashes = slashes + 1;
        }
        i = i + 1;
    }
    proof {
        assert(t@.take(n as int) =~= t@);
    }
    slashes == 8
}

fn check_hands(t: &Vec<char>) -> (r: bool)
    ensures
        r == valid_hands(t@),
{
    if t.len() == 1 && *t.get(0).unwrap() == '-' {
        proof {
            assert(t@ =~= seq!['-']);
        }
        return true;
    }
    proof {
        if t@ == seq!['-'] {
            assert(t@.len() == 1);
            assert(t@[0] == '-');
        }
    }
    if t.len() == 0 {
        return false;
    }
    let n = t.len();
    let mut i: usize = 0;
    while i < n
        invariant
            0 <= i <= n,
            n == t@.len(),
            t@ != seq!['-'],
            forall|j: int| 0 <= j < i ==> hands_char_ok(#[trigger] t@[j]),
        decreases n - i,
    {
        let c = *t.get(i).unwrap();
        if !(piece_letter_x(c) || is_digit_x(c)) {
            proof {
                assert(!hands_char_ok(t@[i as int]));
            }
            return false;
        }
        i = i + 1;
    }
    true
}

/// Parse a move-count field; its value where it is one.
fn parse_ply(t: &Vec<char>) -> (r: Option<u16>)
    ensures
        match r {
            Some(v) => valid_ply(t@) && v as int == ply_val(t@),
            None => !valid_ply(t@),
        },
{
    let n = t.len();
    if n < 1 || n > 4 {
        return None;
    }
    proof {
        assert(pow10(0) == 1);
        assert(pow10(1) == 10);
        assert(pow10(2) == 100);
        assert(pow10(3) == 1000);
        assert(pow10(4) == 10000);
    }
    let mut val: u32 = 0;
    let mut i: usize = 0;
    proof {
        assert(t@.take(0) =~= Seq::<char>::empty());
    }
    while i < n
        invariant
            0 <= i <= n <= 4,
            n == t@.len(),
            forall|j: int| 0 <= j < i ==> is_digit(#[trigger] t@[j]),
            val as int == ply_val(t@.take(i as int)),
            0 <= val,
            (val as int) < pow10(i as nat),
            pow10(0) == 1 && pow10(1) == 10 && pow10(2) == 100 && pow10(3) == 1000 && pow10(4)
                == 10000,
        decreases n - i,
    {
        let c = *t.get(i).unwrap();
        if !is_digit_x(c) {
            return None;
        }
        let d = dval_x(c);
        proof {
            let pre = t@.take(i + 1 as int);
            assert(pre.drop_last() =~= t@.take(i as int));
            assert(pre.last() == t@[i as int]);
            lemma_ply_val_bound(t@.take(i as int));
        }
        val = val * 10 + d;
        i = i + 1;
    }
    proof {
        assert(t@.take(n as int) =~= t@);
    }
    if val == 0 {
        return None;
    }
    Some(val as u16)
}

/// Parse every token from `j` on as a move; `None` if any fails.
fn parse_tail(toks: &Vec<Vec<char>>, tseq: Ghost<Seq<Seq<char>>>, j: usize) -> (r: Option<
    Vec<GameMove>,
>)
    requires
        j <= toks@.len(),
        tseq@.len() == toks@.len(),
        forall|k: int| 0 <= k < toks@.len() ==> toks@[k]@ == tseq@[k],
    ensures
        match r {
            Some(v) => {
                &&& tail_parses(tseq@, j as int)
                &&& v@ == parsed_moves(tseq@, j as int)
                &&& forall|k: int| 0 <= k < v@.len() ==> (#[trigger] v@[k]).wf()
            },
            None => !tail_parses(tseq@, j as int),
        },
{
    let mut v: Vec<GameMove> = Vec::new();
    let n = toks.len();
    let mut k: usize = j;
    while k < n
        invariant
            j <= k <= n,
            n == toks@.len(),
            tseq@.len() == toks@.len(),
            forall|q: int| 0 <= q < toks@.len() ==> toks@[q]@ == tseq@[q],
            forall|q: int| j <= q < k ==> (#[trigger] move_of_usi(tseq@[q])) is Some,
            v@.len() == k - j,
            forall|q: int| j <= q < k ==> v@[q - j] == move_of_usi(tseq@[q]).unwrap(),
            forall|q: int| 0 <= q < v@.len() ==> (#[trigger] v@[q]).wf(),
        decreases n - k,
    {
        match parse_usi_move(toks.get(k).unwrap()) {
            Some(m) => {
                v.push(m);
            },
            None => {
                proof {
                    assert(move_of_usi(tseq@[k as int]) is None);
                    assert(!tail_parses(tseq@, j as int));
                }
                return None;
            },
        }
        k = k + 1;
    }
    proof {
        assert(v@ =~= parsed_moves(tseq@, j as int));
    }
    Some(v)
}

/// The optional `moves` section beginning at token `j`, as `state_tail`
/// describes it.
fn tail_moves(toks: &Vec<Vec<char>>, tseq: Ghost<Seq<Seq<char>>>, j: usize) -> (r: Option<
    Vec<GameMove>,
>)
    requires
        j <= toks@.len(),
        tseq@.len() == toks@.len(),
        forall|k: int| 0 <= k < toks@.len() ==> toks@[k]@ == tseq@[k],
    ensures
        match r {
            Some(v) => {
                &&& state_tail(tseq@, j as int) == Some(v@)
                &&& forall|k: int| 0 <= k < v@.len() ==> (#[trigger] v@[k]).wf()
            },
            None => state_tail(tseq@, j as int) is None,
        },
{
    if toks.len() == j {
        let v: Vec<GameMove> = Vec::new();
        proof {
            assert(v@ =~= Seq::<GameMove>::empty());
        }
        return Some(v);
    }
    if toks.len() - j >= 2 && tok_eq(toks.get(j).unwrap(), "moves") {
        parse_tail(toks, tseq, j + 1)
    } else {
        None
    }
}

/// The nonempty tokens of `all`, as `words` describes them.
fn filter_words(all: &Vec<Vec<char>>, aseq: Ghost<Seq<Seq<char>>>) -> (r: Vec<Vec<char>>)
    requires
        aseq@.len() == all@.len(),
        forall|k: int| 0 <= k < all@.len() ==> all@[k]@ == aseq@[k],
    ensures
        r@.len() == words(aseq@).len(),
        forall|k: int| 0 <= k < r@.len() ==> r@[k]@ == words(aseq@)[k],
{
    let mut r: Vec<Vec<char>> = Vec::new();
    let ghost mut done: Seq<Seq<char>> = Seq::empty();
    let n = all.len();
    let mut i: usize = 0;
    proof {
        assert(aseq@.skip(0) =~= aseq@);
        assert(done + words(aseq@) =~= words(aseq@));
    }
    while i < n
        invariant
            0 <= i <= n,
            n == all@.len(),
            aseq@.len() == all@.len(),
            forall|k: int| 0 <= k < all@.len() ==> all@[k]@ == aseq@[k],
            r@.len() == done.len(),
            forall|k: int| 0 <= k < r@.len() ==> r@[k]@ == done[k],
            words(aseq@) == done + words(aseq@.skip(i as int)),
        decreases n - i,
    {
        let ghost rest = aseq@.skip(i as int);
        proof {
            assert(rest[0] == aseq@[i as int]);
            assert(rest.skip(1) =~= aseq@.skip(i + 1 as int));
        }
        if all.get(i).unwrap().len() > 0 {
            r.push(copy_chars(all.get(i).unwrap()));
            proof {
                done = done.push(aseq@[i as int]);
                assert(words(rest) == seq![aseq@[i as int]] + words(aseq@.skip(i + 1 as int)));
                assert(words(aseq@) =~= done + words(aseq@.skip(i + 1 as int)));
            }
        } else {
            proof {
                assert(words(rest) == Seq::<Seq<char>>::empty() + words(aseq@.skip(i + 1 as int)));
                assert(Seq::<Seq<char>>::empty() + words(aseq@.skip(i + 1 as int)) =~= words(
                    aseq@.skip(i + 1 as int),
                ));
            }
        }
        i = i + 1;
    }
    proof {
        assert(aseq@.skip(n as int) =~= Seq::<Seq<char>>::empty());
        assert(words(aseq@) =~= done);
    }
    r
}

/// Decode an encoded state. Anything malformed yields the initial state, so
/// this never fails, whatever the feed holds.
pub fn decode(s: &str) -> (r: GameRecord)
    ensures
        r.model() == spec_decode(s@),
        r.wf(),
{
    let chars = to_chars(s);
    let all = tokenize(&chars);
    let ghost aseq = Seq::new(all@.len(), |k: int| all@[k]@);
    proof {
        assert(aseq =~= tokens_of(s@));
    }
    let toks = filter_words(&all, Ghost(aseq));
    let ghost tseq = Seq::new(toks@.len(), |k: int| toks@[k]@);
    proof {
        assert(tseq =~= words(tokens_of(s@)));
        lemma_decode_wf(s@);
    }
    if toks.len() >= 1 && tok_eq(toks.get(0).unwrap(), "startpos") {
        match tail_moves(&toks, Ghost(tseq), 1) {
            Some(v) => {
                let r = GameRecord { start: None, moves: v };
                proof {
                    assert(r.model() =~~= spec_decode(s@));
                }
                r
            },
            None => GameRecord::initial(),
        }
    } else if toks.len() >= 5 && tok_eq(toks.get(0).unwrap(), "sfen") {
        if tok_eq(toks.get(1).unwrap(), "lnsgkgsnl/1r5b1/ppppppppp/9/9/9/PPPPPPPPP/1B5R1/LNSGKGSNL")
            && tok_eq(toks.get(2).unwrap(), "b") && tok_eq(toks.get(3).unwrap(), "-") && tok_eq(
            toks.get(4).unwrap(),
            "1",
        ) {
            proof {
                reveal_strlit("b");
                reveal_strlit("-");
                reveal_strlit("1");
                assert("b"@ =~= seq!['b']);
                assert("-"@ =~= seq!['-']);
                assert("1"@ =~= seq!['1']);
            }
            match tail_moves(&toks, Ghost(tseq), 5) {
                Some(v) => {
                    let r = GameRecord { start: None, moves: v };
                    proof {
                        assert(r.model() =~~= spec_decode(s@));
                    }
                    r
                },
                None => GameRecord::initial(),
            }
        } else {
            proof {
                reveal_strlit("b");
                reveal_strlit("-");
                reveal_strlit("1");
                assert("b"@ =~= seq!['b']);
                assert("-"@ =~= seq!['-']);
                assert("1"@ =~= seq!['1']);
            }
            let side_b = tok_eq(toks.get(2).unwrap(), "b");
            let side_w = tok_eq(toks.get(2).unwrap(), "w");
            proof {
                reveal_strlit("w");
                assert("w"@ =~= seq!['w']);
            }
            let ply = parse_ply(toks.get(4).unwrap());
            if check_board(toks.get(1).unwrap()) && (side_b || side_w) && check_hands(
                toks.get(3).unwrap(),
            ) && ply.is_some() {
                match tail_moves(&toks, Ghost(tseq), 5) {
                    Some(v) => {
                        let sn = Snapshot {
                            board: copy_chars(toks.get(1).unwrap()),
                            white_to_move: side_w,
                            hands: copy_chars(toks.get(3).unwrap()),
                            ply_digits: copy_chars(toks.get(4).unwrap()),
                            ply: ply.unwrap(),
                        };
                        let r = GameRecord { start: Some(sn), moves: v };
                        proof {
                            assert(r.model() =~~= spec_decode(s@));
                        }
                        r
                    },
                    None => GameRecord::initial(),
                }
            } else {
                GameRecord::initial()
            }
        }
    } else {
        GameRecord::initial()
    }
}

} // verus!
