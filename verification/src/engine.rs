//! The trusted boundary to the outside shogi crates: rule enforcement,
//! contextual (KI2) notation, and board rendering. Each function here makes
//! one outside call chain on plain values; everything around these calls is
//! verified elsewhere in the crate.
//!
//! Positions cross this boundary only in their encoded textual form, so
//! every contract is stated over strings. A malformed position string is
//! read as the initial position, exactly as the decoder treats it.

use vstd::prelude::*;

use shogi_core::LegalityChecker;
use shogi_core::ToUsi;
use shogi_kifu_converter::converter::ToKi2;
use shogi_usi_parser::FromUsi;

verus! {

/// How a game stands after a move.
#[derive(Clone, Copy, PartialEq, Eq, Structural, Debug)]
pub enum GameStatus {
    /// The game goes on: no mate, no repetition.
    Ongoing,
    /// The first player mated the second.
    BlackWins,
    /// The second player mated the first.
    WhiteWins,
    /// Draw by repetition.
    Draw,
}

/// Whether the rule engine accepts the move written `mv_usi` in the position
/// encoded by `pos_usi`: a function of the two strings alone.
pub uninterp spec fn engine_legal(pos_usi: Seq<char>, mv_usi: Seq<char>) -> bool;

/// Relies on `shogi_usi_parser`'s `Position::from_usi` and `Move::from_usi`
/// and on `shogi_legality_lite`'s `LegalityChecker::make_move`: whether the
/// move is legal in the position, both read from their textual forms. A drop
/// move parses as the first player's by convention, so its side is set to
/// the side to move before the rules are asked.
#[verifier::external_body]
fn engine_try_move(pos_usi: &str, mv_usi: &str) -> (r: bool)
    ensures
        r == engine_legal(pos_usi@, mv_usi@),
{
    let mut pos = shogi_core::Position::from_usi(pos_usi).unwrap_or_default();
    let mv = match shogi_core::Move::from_usi(mv_usi) {
        Ok(m) => m,
        Err(_) => return false,
    };
    let mv = match mv {
        shogi_core::Move::Drop { piece, to } => shogi_core::Move::Drop {
            piece: shogi_core::Piece::new(piece.piece_kind(), pos.side_to_move()),
            to,
        },
        m => m,
    };
    shogi_legality_lite::LiteLegalityChecker.make_move(&mut pos, mv).is_ok()
}

/// The status the rule engine reports for the position encoded by `pos_usi`:
/// a function of the string alone.
pub uninterp spec fn status_of(pos_usi: Seq<char>) -> GameStatus;

/// Relies on `shogi_legality_lite`'s `LegalityChecker::status`: mate and
/// repetition detection. Its `Invalid` answer is read as ongoing, which
/// matches how an unplayable state is handled everywhere else: no summary is
/// posted for it.
#[verifier::external_body]
fn engine_status(pos_usi: &str) -> (r: GameStatus)
    ensures
        r == status_of(pos_usi@),
{
    let pos = shogi_core::Position::from_usi(pos_usi).unwrap_or_default();
    match shogi_legality_lite::LiteLegalityChecker.status(&pos) {
        shogi_core::PositionStatus::BlackWins => GameStatus::BlackWins,
        shogi_core::PositionStatus::WhiteWins => GameStatus::WhiteWins,
        shogi_core::PositionStatus::Draw => GameStatus::Draw,
        _ => GameStatus::Ongoing,
    }
}

/// The game encoded by `pos_usi` written as a contextual-notation
/// transcript, if the converter can express it: a function of the string
/// alone.
pub uninterp spec fn ki2_of(pos_usi: Seq<char>) -> Option<Seq<char>>;

/// Relies on `shogi_kifu_converter`: `JKF::try_from(&Position)` and
/// `ToKi2::to_ki2_owned` turn a position into a contextual-notation
/// transcript of its moves.
#[verifier::external_body]
fn ki2_transcript(pos_usi: &str) -> (r: Option<String>)
    ensures
        match r {
            Some(t) => ki2_of(pos_usi@) == Some(t@),
            None => ki2_of(pos_usi@) is None,
        },
{
    let pos = shogi_core::Position::from_usi(pos_usi).unwrap_or_default();
    let jkf = shogi_kifu_converter::JKF::try_from(&pos).ok()?;
    Some(jkf.to_ki2_owned().trim().to_string())
}

/// The last move of the contextual-notation transcript `text`, written in
/// standalone notation, if the transcript parses: a function of the string
/// alone.
pub uninterp spec fn ki2_move_usi(text: Seq<char>) -> Option<Seq<char>>;

/// Relies on `shogi_kifu_converter`'s `parse_ki2_str` and
/// `Position::try_from(&JKF)`, and on `shogi_core`'s `ToUsi`: the last move
/// of a contextual-notation transcript, handed back in standalone notation.
/// The input must hold no line break: the grammar recognizes handicap
/// headers and board diagrams only as line-terminated lines, and a header
/// naming a handicap the converter does not implement would make
/// normalization panic rather than err. A text free of line breaks keeps the
/// default even-game setup, on which every path returns.
#[verifier::external_body]
fn ki2_last_move(text: &str) -> (r: Option<String>)
    requires
        crate::text::line_free(text@),
    ensures
        match r {
            Some(u) => ki2_move_usi(text@) == Some(u@),
            None => ki2_move_usi(text@) is None,
        },
{
    let jkf = shogi_kifu_converter::parser::parse_ki2_str(text).ok()?;
    let pos = shogi_core::Position::try_from(&jkf).ok()?;
    let mv = pos.last_move()?;
    Some(mv.to_usi_owned())
}

/// The rendered board image of the position encoded by `pos_usi`: a function
/// of the string alone.
pub uninterp spec fn board_png(pos_usi: Seq<char>) -> Seq<u8>;

/// The rendered image's pixel width: a function of the string alone.
pub uninterp spec fn board_png_w(pos_usi: Seq<char>) -> u32;

/// The rendered image's pixel height: a function of the string alone.
pub uninterp spec fn board_png_h(pos_usi: Seq<char>) -> u32;

/// Relies on `shogi_img`'s `Generator::generate` and the `image` crate's PNG
/// encoder: the position drawn as a board diagram, with the last move's
/// target square highlighted, as PNG bytes plus exactly that image's pixel
/// dimensions.
#[verifier::external_body]
pub fn pos2img(pos_usi: &str) -> (r: (Vec<u8>, u32, u32))
    ensures
        r.0@ == board_png(pos_usi@),
        r.1 == board_png_w(pos_usi@),
        r.2 == board_png_h(pos_usi@),
{
    let pos = shogi_core::Position::from_usi(pos_usi).unwrap_or_default();
    let img = shogi_img::Generator::new(
        Default::default(),
        Default::default(),
        Default::default(),
        shogi_img::HighlightSquare::LastMoveTo,
    ).generate(&pos);
    let mut buf = Vec::new();
    img.write_with_encoder(shogi_img::image::codecs::png::PngEncoder::new(&mut buf))
        .expect("failed to encode image");
    (buf, img.width(), img.height())
}

/// The rule engine's verdict on `mv` in the state `rec`, through the
/// encoded forms both sides of the boundary agree on.
pub fn try_move_in(rec_usi: &String, mv: &crate::moves::GameMove) -> (r: bool)
    requires
        mv.wf(),
    ensures
        r == engine_legal(rec_usi@, crate::moves::usi_of_move(*mv)),
{
    let mv_usi = crate::moves::move_usi_string(mv);
    engine_try_move(rec_usi.as_str(), mv_usi.as_str())
}

/// The status of the state encoded by `rec_usi`.
pub fn status_in(rec_usi: &String) -> (r: GameStatus)
    ensures
        r == status_of(rec_usi@),
{
    engine_status(rec_usi.as_str())
}

/// The contextual-notation transcript of the state encoded by `rec_usi`.
pub fn transcript_in(rec_usi: &String) -> (r: Option<String>)
    ensures
        match r {
            Some(t) => ki2_of(rec_usi@) == Some(t@),
            None => ki2_of(rec_usi@) is None,
        },
{
    ki2_transcript(rec_usi.as_str())
}

/// The last move of the contextual-notation transcript `text`, in
/// standalone notation. The text must hold no line break (see
/// `ki2_last_move`).
pub(crate) fn last_move_of_transcript(text: &String) -> (r: Option<String>)
    requires
        crate::text::line_free(text@),
    ensures
        match r {
            Some(u) => ki2_move_usi(text@) == Some(u@),
            None => ki2_move_usi(text@) is None,
        },
{
    ki2_last_move(text.as_str())
}

} // verus!
