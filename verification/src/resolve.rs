//! Move resolution: turning one candidate reply text into a validated,
//! applied move, trying standalone notation first and contextual notation
//! second, and scanning a candidate list until the first legal move.

use vstd::prelude::*;

use crate::codec::{encode, spec_encode_m, GameRecord, RecModel};
use crate::engine::{
    engine_legal, ki2_move_usi, ki2_of, last_move_of_transcript, status_in, status_of,
    transcript_in, try_move_in, GameStatus,
};
use crate::error::Error;
use crate::moves::{move_of_usi, parse_usi_move, usi_of_move, GameMove};
use crate::text::{first_token, last_token, line_free, to_chars, widened};

verus! {

/// The move a candidate text denotes against the transcript `ki2`: the text
/// read as one standalone-notation move if it is one; otherwise its first
/// token, digits widened, appended to the transcript and the whole read in
/// contextual notation. A combined text carrying a line break is never
/// handed to the contextual grammar, which reserves line-terminated lines
/// for headers and board diagrams.
pub open spec fn resolved_move(ki2: Seq<char>, text: Seq<char>) -> Option<GameMove> {
    match move_of_usi(text) {
        Some(m) => Some(m),
        None => {
            let combined = ki2 + seq![' '] + widened(first_token(text));
            if line_free(combined) {
                match ki2_move_usi(combined) {
                    Some(u) => move_of_usi(u),
                    None => None,
                }
            } else {
                None
            }
        },
    }
}

/// Whether a candidate text resolves to a move the rules accept in state
/// `m` against transcript `ki2`.
pub open spec fn accepted(m: RecModel, ki2: Seq<char>, text: Seq<char>) -> bool {
    match resolved_move(ki2, text) {
        Some(mv) => engine_legal(spec_encode_m(m), usi_of_move(mv)),
        None => false,
    }
}

/// The state carried across one scan: the current game, its encoded form,
/// and the contextual-notation transcript derived once from the game the
/// scan started from.
pub struct MoveChecker {
    pub record: GameRecord,
    pub usi: String,
    pub ki2: String,
}

impl MoveChecker {
    pub open spec fn wf(self) -> bool {
        &&& self.record.wf()
        &&& self.usi@ == spec_encode_m(self.record.model())
    }

    /// Start a scan from `record`. Fails only where the converter cannot
    /// express the game as a transcript.
    pub fn new(record: GameRecord) -> (r: Result<MoveChecker, Error>)
        requires
            record.wf(),
        ensures
            match r {
                Ok(c) => {
                    &&& c.wf()
                    &&& c.record.model() == record.model()
                    &&& ki2_of(spec_encode_m(record.model())) == Some(c.ki2@)
                },
                Err(e) => {
                    &&& e == Error::Convert
                    &&& ki2_of(spec_encode_m(record.model())) is None
                },
            },
    {
        let usi = encode(&record);
        match transcript_in(&usi) {
            Some(ki2) => Ok(MoveChecker { record, usi, ki2 }),
            None => Err(Error::Convert),
        }
    }

    /// Try one candidate text: parse it in either notation and submit the
    /// move to the rules. On success the move is applied; on any failure
    /// the state is left as it was, and the scan may go on.
    pub fn try_move(&mut self, text: &str) -> (r: Result<(), Error>)
        requires
            old(self).wf(),
        ensures
            final(self).wf(),
            final(self).ki2 == old(self).ki2,
            match r {
                Ok(()) => {
                    &&& resolved_move(old(self).ki2@, text@) is Some
                    &&& accepted(old(self).record.model(), old(self).ki2@, text@)
                    &&& final(self).record.model() == (RecModel {
                        start: old(self).record.model().start,
                        moves: old(self).record.model().moves.push(
                            resolved_move(old(self).ki2@, text@).unwrap(),
                        ),
                    })
                },
                Err(Error::ParseMove) => {
                    &&& resolved_move(old(self).ki2@, text@) is None
                    &&& *final(self) == *old(self)
                },
                Err(Error::IllegalMove) => {
                    &&& resolved_move(old(self).ki2@, text@) is Some
                    &&& !accepted(old(self).record.model(), old(self).ki2@, text@)
                    &&& *final(self) == *old(self)
                },
                Err(_) => false,
            },
    {
        let chars = to_chars(text);
        let mv: GameMove = match parse_usi_move(&chars) {
            Some(m) => m,
            None => {
                let widened_tok = crate::text::widened_first_token(text);
                let mut combined = self.ki2.clone();
                combined.append(" ");
                proof {
                    reveal_strlit(" ");
                    assert(" "@ =~= seq![' ']);
                }
                combined.append(widened_tok.as_str());
                if !crate::text::is_line_free(&combined) {
                    return Err(Error::ParseMove);
                }
                match last_move_of_transcript(&combined) {
                    Some(u) => {
                        let uc = to_chars(u.as_str());
                        match parse_usi_move(&uc) {
                            Some(m) => m,
                            None => {
                                return Err(Error::ParseMove);
                            },
                        }
                    },
                    None => {
                        return Err(Error::ParseMove);
                    },
                }
            },
        };
        if try_move_in(&self.usi, &mv) {
            self.record.moves.push(mv);
            proof {
                assert(self.record.model() =~~= (RecModel {
                    start: old(self).record.model().start,
                    moves: old(self).record.model().moves.push(mv),
                }));
            }
            self.usi = encode(&self.record);
            Ok(())
        } else {
            Err(Error::IllegalMove)
        }
    }

    /// How the game stands after the moves made so far.
    pub fn status(&self) -> (r: GameStatus)
        requires
            self.wf(),
        ensures
            r == status_of(spec_encode_m(self.record.model())),
    {
        status_in(&self.usi)
    }
}

/// Try the candidate texts in the order given and apply the first that
/// parses and is legal; report its index. Candidates that fail to parse or
/// propose an illegal move are skipped and never halt the scan; if none
/// succeeds, the state is left as it was.
pub fn resolve_first(c: &mut MoveChecker, texts: &Vec<String>) -> (r: Option<usize>)
    requires
        old(c).wf(),
    ensures
        final(c).wf(),
        final(c).ki2 == old(c).ki2,
        match r {
            Some(i) => {
                &&& i < texts@.len()
                &&& accepted(old(c).record.model(), old(c).ki2@, texts@[i as int]@)
                &&& forall|j: int|
                    0 <= j < i ==> !accepted(old(c).record.model(), old(c).ki2@, texts@[j]@)
                &&& final(c).record.model() == (RecModel {
                    start: old(c).record.model().start,
                    moves: old(c).record.model().moves.push(
                        resolved_move(old(c).ki2@, texts@[i as int]@).unwrap(),
                    ),
                })
            },
            None => {
                &&& forall|j: int|
                    0 <= j < texts@.len() ==> !accepted(
                        old(c).record.model(),
                        old(c).ki2@,
                        texts@[j]@,
                    )
                &&& *final(c) == *old(c)
            },
        },
{
    let n = texts.len();
    let mut i: usize = 0;
    while i < n
        invariant
            0 <= i <= n,
            n == texts@.len(),
            *c == *old(c),
            c.wf(),
            forall|j: int| 0 <= j < i ==> !accepted(old(c).record.model(), old(c).ki2@, texts@[j]@),
        decreases n - i,
    {
        match c.try_move(texts.get(i).unwrap().as_str()) {
            Ok(()) => {
                return Some(i);
            },
            Err(_) => {},
        }
        i = i + 1;
    }
    None
}

/// The last move of the game encoded by `usi`, in contextual notation for a
/// human reader: the final token of the transcript. `Ok(None)` when no move
/// has been made; an error only where the converter cannot express the game.
pub fn last_move_ki2(usi: &String) -> (r: Result<Option<String>, Error>)
    ensures
        match r {
            Ok(opt) => {
                &&& ki2_of(usi@) is Some
                &&& match opt {
                    Some(tok) => last_token(ki2_of(usi@).unwrap()) == Some(tok@),
                    None => last_token(ki2_of(usi@).unwrap()) is None,
                }
            },
            Err(e) => {
                &&& e == Error::Convert
                &&& ki2_of(usi@) is None
            },
        },
{
    match transcript_in(usi) {
        Some(t) => match crate::text::last_token_str(t.as_str()) {
            Some(tok) => Ok(Some(tok)),
            None => Ok(None),
        },
        None => Err(Error::Convert),
    }
}

} // verus!
