//! The model of a single game move and its standalone (USI) notation:
//! a context-free token such as `7g7f`, `8h2b+` or `P*3d`.

use vstd::prelude::*;

verus! {

/// A board coordinate. Files and ranks both run 1 through 9.
#[derive(Clone, Copy, PartialEq, Eq, Structural, Debug)]
pub struct Square {
    pub file: u8,
    pub rank: u8,
}

impl Square {
    pub open spec fn wf(self) -> bool {
        1 <= self.file <= 9 && 1 <= self.rank <= 9
    }
}

/// The kind of a piece, as named in drop notation.
#[derive(Clone, Copy, PartialEq, Eq, Structural, Debug)]
pub enum PieceKind {
    Pawn,
    Lance,
    Knight,
    Silver,
    Gold,
    Bishop,
    Rook,
    King,
}

/// A single move: either a piece moving between squares, optionally
/// promoting, or a captured piece dropped back onto the board. The side that
/// moves is determined by the position, not recorded here.
#[derive(Clone, Copy, PartialEq, Eq, Structural, Debug)]
pub enum GameMove {
    Normal { from: Square, to: Square, promote: bool },
    Drop { piece: PieceKind, to: Square },
}

impl GameMove {
    pub open spec fn wf(self) -> bool {
        match self {
            GameMove::Normal { from, to, promote: _ } => from.wf() && to.wf(),
            GameMove::Drop { piece: _, to } => to.wf(),
        }
    }
}

/// The digit character of a file number.
pub open spec fn file_char(d: u8) -> char {
    if d == 1 {
        '1'
    } else if d == 2 {
        '2'
    } else if d == 3 {
        '3'
    } else if d == 4 {
        '4'
    } else if d == 5 {
        '5'
    } else if d == 6 {
        '6'
    } else if d == 7 {
        '7'
    } else if d == 8 {
        '8'
    } else {
        '9'
    }
}

/// The letter of a rank number: ranks 1 through 9 are written a through i.
pub open spec fn rank_char(d: u8) -> char {
    if d == 1 {
        'a'
    } else if d == 2 {
        'b'
    } else if d == 3 {
        'c'
    } else if d == 4 {
        'd'
    } else if d == 5 {
        'e'
    } else if d == 6 {
        'f'
    } else if d == 7 {
        'g'
    } else if d == 8 {
        'h'
    } else {
        'i'
    }
}

/// The file number of a digit character, 0 if it is not one.
pub open spec fn file_val(c: char) -> u8 {
    if c == '1' {
        1
    } else if c == '2' {
        2
    } else if c == '3' {
        3
    } else if c == '4' {
        4
    } else if c == '5' {
        5
    } else if c == '6' {
        6
    } else if c == '7' {
        7
    } else if c == '8' {
        8
    } else if c == '9' {
        9
    } else {
        0
    }
}

/// The rank number of a rank letter, 0 if it is not one.
pub open spec fn rank_val(c: char) -> u8 {
    if c == 'a' {
        1
    } else if c == 'b' {
        2
    } else if c == 'c' {
        3
    } else if c == 'd' {
        4
    } else if c == 'e' {
        5
    } else if c == 'f' {
        6
    } else if c == 'g' {
        7
    } else if c == 'h' {
        8
    } else if c == 'i' {
        9
    } else {
        0
    }
}

/// The upper-case letter of a piece kind, as drop notation writes it.
pub open spec fn piece_char(p: PieceKind) -> char {
    match p {
        PieceKind::Pawn => 'P',
        PieceKind::Lance => 'L',
        PieceKind::Knight => 'N',
        PieceKind::Silver => 'S',
        PieceKind::Gold => 'G',
        PieceKind::Bishop => 'B',
        PieceKind::Rook => 'R',
        PieceKind::King => 'K',
    }
}

/// The piece kind of an upper-case letter, if it is one.
pub open spec fn piece_of_char(c: char) -> Option<PieceKind> {
    if c == 'P' {
        Some(PieceKind::Pawn)
    } else if c == 'L' {
        Some(PieceKind::Lance)
    } else if c == 'N' {
        Some(PieceKind::Knight)
    } else if c == 'S' {
        Some(PieceKind::Silver)
    } else if c == 'G' {
        Some(PieceKind::Gold)
    } else if c == 'B' {
        Some(PieceKind::Bishop)
    } else if c == 'R' {
        Some(PieceKind::Rook)
    } else if c == 'K' {
        Some(PieceKind::King)
    } else {
        None
    }
}

/// The standalone notation of a move.
pub open spec fn usi_of_move(m: GameMove) -> Seq<char> {
    match m {
        GameMove::Normal { from, to, promote } => {
            let base = seq![
                file_char(from.file),
                rank_char(from.rank),
                file_char(to.file),
                rank_char(to.rank),
            ];
            if promote {
                base.push('+')
            } else {
                base
            }
        },
        GameMove::Drop { piece, to } => seq![
            piece_char(piece),
            '*',
            file_char(to.file),
            rank_char(to.rank),
        ],
    }
}

/// The move a standalone-notation token denotes, if it is one. The token
/// must be the move and nothing else.
pub open spec fn move_of_usi(s: Seq<char>) -> Option<GameMove> {
    if s.len() == 4 && s[1] == '*' {
        match piece_of_char(s[0]) {
            Some(p) => if file_val(s[2]) > 0 && rank_val(s[3]) > 0 {
                Some(
                    GameMove::Drop {
                        piece: p,
                        to: Square { file: file_val(s[2]), rank: rank_val(s[3]) },
                    },
                )
            } else {
                None
            },
            None => None,
        }
    } else if s.len() == 4 || (s.len() == 5 && s[4] == '+') {
        if file_val(s[0]) > 0 && rank_val(s[1]) > 0 && file_val(s[2]) > 0 && rank_val(s[3]) > 0 {
            Some(
                GameMove::Normal {
                    from: Square { file: file_val(s[0]), rank: rank_val(s[1]) },
                    to: Square { file: file_val(s[2]), rank: rank_val(s[3]) },
                    promote: s.len() == 5,
                },
            )
        } else {
            None
        }
    } else {
        None
    }
}

/// Parsing a well-formed move's notation gives back the move.
pub proof fn lemma_move_roundtrip(m: GameMove)
    requires
        m.wf(),
    ensures
        move_of_usi(usi_of_move(m)) == Some(m),
{
}

/// A parsed move is well formed.
pub proof fn lemma_parsed_move_wf(s: Seq<char>)
    ensures
        match move_of_usi(s) {
            Some(m) => m.wf(),
            None => true,
        },
{
}

/// Standalone notation never holds whitespace.
pub proof fn lemma_move_usi_no_ws(m: GameMove)
    requires
        m.wf(),
    ensures
        forall|j: int|
            0 <= j < usi_of_move(m).len() ==> !crate::text::is_ws(#[trigger] usi_of_move(m)[j]),
        usi_of_move(m).len() > 0,
{
}

fn file_val_x(c: char) -> (r: u8)
    ensures
        r == file_val(c),
{
    if c == '1' {
        1
    } else if c == '2' {
        2
    } else if c == '3' {
        3
    } else if c == '4' {
        4
    } else if c == '5' {
        5
    } else if c == '6' {
        6
    } else if c == '7' {
        7
    } else if c == '8' {
        8
    } else if c == '9' {
        9
    } else {
        0
    }
}

fn rank_val_x(c: char) -> (r: u8)
    ensures
        r == rank_val(c),
{
    if c == 'a' {
        1
    } else if c == 'b' {
        2
    } else if c == 'c' {
        3
    } else if c == 'd' {
        4
    } else if c == 'e' {
        5
    } else if c == 'f' {
        6
    } else if c == 'g' {
        7
    } else if c == 'h' {
        8
    } else if c == 'i' {
        9
    } else {
        0
    }
}

fn piece_of_char_x(c: char) -> (r: Option<PieceKind>)
    ensures
        r == piece_of_char(c),
{
    if c == 'P' {
        Some(PieceKind::Pawn)
    } else if c == 'L' {
        Some(PieceKind::Lance)
    } else if c == 'N' {
        Some(PieceKind::Knight)
    } else if c == 'S' {
        Some(PieceKind::Silver)
    } else if c == 'G' {
        Some(PieceKind::Gold)
    } else if c == 'B' {
        Some(PieceKind::Bishop)
    } else if c == 'R' {
        Some(PieceKind::Rook)
    } else if c == 'K' {
        Some(PieceKind::King)
    } else {
        None
    }
}

/// Parse a standalone-notation token.
pub fn parse_usi_move(t: &Vec<char>) -> (r: Option<GameMove>)
    ensures
        r == move_of_usi(t@),
        match r {
            Some(m) => m.wf(),
            None => true,
        },
{
    if t.len() == 4 && *t.get(1).unwrap() == '*' {
        match piece_of_char_x(*t.get(0).unwrap()) {
            Some(p) => {
                let file = file_val_x(*t.get(2).unwrap());
                let rank = rank_val_x(*t.get(3).unwrap());
                if file > 0 && rank > 0 {
                    Some(GameMove::Drop { piece: p, to: Square { file, rank } })
                } else {
                    None
                }
            },
            None => None,
        }
    } else if t.len() == 4 || (t.len() == 5 && *t.get(4).unwrap() == '+') {
        let ff = file_val_x(*t.get(0).unwrap());
        let fr = rank_val_x(*t.get(1).unwrap());
        let tf = file_val_x(*t.get(2).unwrap());
        let tr = rank_val_x(*t.get(3).unwrap());
        if ff > 0 && fr > 0 && tf > 0 && tr > 0 {
            Some(
                GameMove::Normal {
                    from: Square { file: ff, rank: fr },
                    to: Square { file: tf, rank: tr },
                    promote: t.len() == 5,
                },
            )
        } else {
            None
        }
    } else {
        None
    }
}

fn append_file(s: &mut String, d: u8)
    requires
        1 <= d <= 9,
    ensures
        final(s)@ == old(s)@ + seq![file_char(d)],
{
    proof {
        reveal_strlit("1");
        reveal_strlit("2");
        reveal_strlit("3");
        reveal_strlit("4");
        reveal_strlit("5");
        reveal_strlit("6");
        reveal_strlit("7");
        reveal_strlit("8");
        reveal_strlit("9");
    }
    let piece: &'static str = if d == 1 {
        "1"
    } else if d == 2 {
        "2"
    } else if d == 3 {
        "3"
    } else if d == 4 {
        "4"
    } else if d == 5 {
        "5"
    } else if d == 6 {
        "6"
    } else if d == 7 {
        "7"
    } else if d == 8 {
        "8"
    } else {
        "9"
    };
    proof {
        assert(piece@ =~= seq![file_char(d)]);
    }
    s.append(piece);
}

fn append_rank(s: &mut String, d: u8)
    requires
        1 <= d <= 9,
    ensures
        final(s)@ == old(s)@ + seq![rank_char(d)],
{
    proof {
        reveal_strlit("a");
        reveal_strlit("b");
        reveal_strlit("c");
        reveal_strlit("d");
        reveal_strlit("e");
        reveal_strlit("f");
        reveal_strlit("g");
        reveal_strlit("h");
        reveal_strlit("i");
    }
    let piece: &'static str = if d == 1 {
        "a"
    } else if d == 2 {
        "b"
    } else if d == 3 {
        "c"
    } else if d == 4 {
        "d"
    } else if d == 5 {
        "e"
    } else if d == 6 {
        "f"
    } else if d == 7 {
        "g"
    } else if d == 8 {
        "h"
    } else {
        "i"
    };
    proof {
        assert(piece@ =~= seq![rank_char(d)]);
    }
    s.append(piece);
}

fn append_piece(s: &mut String, p: PieceKind)
    ensures
        final(s)@ == old(s)@ + seq![piece_char(p)],
{
    proof {
        reveal_strlit("P");
        reveal_strlit("L");
        reveal_strlit("N");
        reveal_strlit("S");
        reveal_strlit("G");
        reveal_strlit("B");
        reveal_strlit("R");
        reveal_strlit("K");
    }
    let piece: &'static str = match p {
        PieceKind::Pawn => "P",
        PieceKind::Lance => "L",
        PieceKind::Knight => "N",
        PieceKind::Silver => "S",
        PieceKind::Gold => "G",
        PieceKind::Bishop => "B",
        PieceKind::Rook => "R",
        PieceKind::King => "K",
    };
    proof {
        assert(piece@ =~= seq![piece_char(p)]);
    }
    s.append(piece);
}

/// Append the standalone notation of `m` to `s`.
pub fn append_move_usi(s: &mut String, m: &GameMove)
    requires
        m.wf(),
    ensures
        final(s)@ == old(s)@ + usi_of_move(*m),
{
    match m {
        GameMove::Normal { from, to, promote } => {
            append_file(s, from.file);
            append_rank(s, from.rank);
            append_file(s, to.file);
            append_rank(s, to.rank);
            if *promote {
                s.append("+");
                proof {
                    reveal_strlit("+");
                    assert("+"@ =~= seq!['+']);
                }
            }
            proof {
                assert(s@ =~= old(s)@ + usi_of_move(*m));
            }
        },
        GameMove::Drop { piece, to } => {
            append_piece(s, *piece);
            s.append("*");
            proof {
                reveal_strlit("*");
                assert("*"@ =~= seq!['*']);
            }
            append_file(s, to.file);
            append_rank(s, to.rank);
            proof {
                assert(s@ =~= old(s)@ + usi_of_move(*m));
            }
        },
    }
}

/// The standalone notation of `m` as a string of its own.
pub fn move_usi_string(m: &GameMove) -> (r: String)
    requires
        m.wf(),
    ensures
        r@ == usi_of_move(*m),
{
    let mut s = String::new();
    append_move_usi(&mut s, m);
    proof {
        assert(s@ =~= usi_of_move(*m));
    }
    s
}

} // verus!
