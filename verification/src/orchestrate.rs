//! One bot invocation, as a decision function: from the latest post and its
//! replies to the posts that must be published. Fetching and publishing live
//! outside; everything decided here is verified.

use vstd::prelude::*;

use crate::codec::{decode, display_number, initial_model, spec_decode, spec_encode_m, GameRecord,
    RecModel};
use crate::compose::{
    build_summary, compose_game_start, compose_move_reply, display_number_of, move_text,
    root_rule, summary_text, OutgoingPost,
};
use crate::engine::{ki2_of, status_of, GameStatus};
use crate::error::Error;
use crate::resolve::{accepted, resolve_first, resolved_move, MoveChecker};
use crate::scan::{
    is_candidate, lemma_scan_props, scan_candidates, scan_order, text_of, FeedPost, PostRecord,
};

verus! {

/// The game the latest post carries: its image alt-text decoded; a fresh
/// game where the post has no image.
pub open spec fn start_model(latest: FeedPost) -> RecModel {
    match latest.record {
        PostRecord::Post { alt: Some(a), .. } => spec_decode(a@),
        _ => initial_model(),
    }
}

/// The transcript the scan starts from.
pub open spec fn turn_ki2(latest: FeedPost) -> Option<Seq<char>> {
    ki2_of(spec_encode_m(start_model(latest)))
}

/// The candidate texts, in scan order.
pub open spec fn cand_texts(replies: Seq<FeedPost>, self_did: Seq<char>) -> Seq<Seq<char>> {
    scan_order(replies, self_did).map_values(|j: int| text_of(replies[j]))
}

/// Whether the candidate at scan position `k` resolves to a legal move of
/// the starting state.
pub open spec fn turn_accepts(
    latest: FeedPost,
    replies: Seq<FeedPost>,
    self_did: Seq<char>,
    k: int,
) -> bool {
    accepted(start_model(latest), turn_ki2(latest).unwrap(), cand_texts(replies, self_did)[k])
}

/// The state after the winning candidate at scan position `k` is applied.
pub open spec fn model_after(
    latest: FeedPost,
    replies: Seq<FeedPost>,
    self_did: Seq<char>,
    k: int,
) -> RecModel {
    RecModel {
        start: start_model(latest).start,
        moves: start_model(latest).moves.push(
            resolved_move(turn_ki2(latest).unwrap(), cand_texts(replies, self_did)[k]).unwrap(),
        ),
    }
}

/// What must follow a game-ending move: a summary, quoted onto the move
/// reply once that is published, and the post that starts the next game.
pub struct GameEnd {
    pub summary: String,
    pub start: OutgoingPost,
}

/// What one invocation publishes: nothing where no candidate wins, the move
/// reply alone while the game goes on, and exactly the summary and the new
/// game start besides it when the move ended the game.
pub struct TurnPlan {
    pub chosen: Option<usize>,
    pub move_post: Option<OutgoingPost>,
    pub end: Option<GameEnd>,
}

/// Decide one invocation: decode the latest post's state, scan its replies
/// newest first, apply the first candidate that parses and is legal, and
/// say what to publish.
pub fn run_turn(latest: &FeedPost, self_did: &String, replies: &Vec<FeedPost>) -> (r: Result<
    TurnPlan,
    Error,
>)
    ensures
        match r {
            Err(e) => (e == Error::NotFeedPostRecord && latest.record is Other) || (e
                == Error::Convert && latest.record is Post && turn_ki2(*latest) is None),
            Ok(plan) => {
                &&& latest.record is Post
                &&& turn_ki2(*latest) is Some
                &&& match plan.chosen {
                    None => {
                        &&& plan.move_post is None
                        &&& plan.end is None
                        &&& forall|j: int|
                            0 <= j < cand_texts(replies@, self_did@).len() ==> !turn_accepts(
                                *latest,
                                replies@,
                                self_did@,
                                j,
                            )
                    },
                    Some(i) => {
                        &&& i < cand_texts(replies@, self_did@).len()
                        &&& turn_accepts(*latest, replies@, self_did@, i as int)
                        &&& forall|j: int|
                            0 <= j < i ==> !turn_accepts(*latest, replies@, self_did@, j)
                        &&& match plan.move_post {
                            Some(mp) => {
                                let after = model_after(*latest, replies@, self_did@, i as int);
                                &&& mp.text@ == move_text(after)
                                &&& match mp.image_alt {
                                    Some(a) => a@ == spec_encode_m(after),
                                    None => false,
                                }
                                &&& match mp.reply {
                                    Some(rt) => root_rule(
                                        rt,
                                        replies@[scan_order(replies@, self_did@)[i as int]],
                                    ),
                                    None => false,
                                }
                                &&& mp.quote is None
                            },
                            None => false,
                        }
                        &&& {
                            let after = model_after(*latest, replies@, self_did@, i as int);
                            let st = status_of(spec_encode_m(after));
                            match plan.end {
                                Some(g) => {
                                    &&& st != GameStatus::Ongoing
                                    &&& g.summary@ == summary_text(display_number(after), st)
                                    &&& g.start.text@ == "対局開始"@
                                    &&& match g.start.image_alt {
                                        Some(a) => a@ == spec_encode_m(initial_model()),
                                        None => false,
                                    }
                                    &&& g.start.reply is None
                                    &&& g.start.quote is None
                                },
                                None => st == GameStatus::Ongoing,
                            }
                        }
                    },
                }
            },
        },
{
    let alt: Option<&String> = match &latest.record {
        PostRecord::Other => {
            return Err(Error::NotFeedPostRecord);
        },
        PostRecord::Post { alt: Some(a), .. } => Some(a),
        PostRecord::Post { alt: None, .. } => None,
    };
    let rec: GameRecord = match alt {
        Some(a) => decode(a.as_str()),
        None => GameRecord::initial(),
    };
    proof {
        assert(rec.model() =~~= start_model(*latest));
    }
    let mut checker = match MoveChecker::new(rec) {
        Ok(c) => c,
        Err(e) => {
            return Err(e);
        },
    };
    let idxs = scan_candidates(replies, self_did);
    proof {
        lemma_scan_props(replies@, self_did@, replies@.len() as int);
    }
    let mut texts: Vec<String> = Vec::new();
    let m = idxs.len();
    let mut k: usize = 0;
    while k < m
        invariant
            0 <= k <= m,
            m == idxs@.len(),
            idxs@.map_values(|u: usize| u as int) == scan_order(replies@, self_did@),
            forall|q: int|
                0 <= q < m ==> 0 <= #[trigger] scan_order(replies@, self_did@)[q] < replies@.len()
                    && is_candidate(replies@[scan_order(replies@, self_did@)[q]], self_did@),
            texts@.len() == k,
            forall|q: int|
                0 <= q < k ==> #[trigger] texts@[q]@ == cand_texts(replies@, self_did@)[q],
        decreases m - k,
    {
        proof {
            assert(idxs@.map_values(|u: usize| u as int)[k as int] == scan_order(
                replies@,
                self_did@,
            )[k as int]);
        }
        let idx = *idxs.get(k).unwrap();
        let p = replies.get(idx).unwrap();
        match &p.record {
            PostRecord::Post { text, .. } => {
                texts.push(text.clone());
            },
            PostRecord::Other => {
                proof {
                    assert(is_candidate(replies@[idx as int], self_did@));
                    assert(false);
                }
                texts.push(String::new());
            },
        }
        k = k + 1;
    }
    proof {
        assert(texts@.len() == cand_texts(replies@, self_did@).len());
    }
    let ghost checker0 = checker;
    match resolve_first(&mut checker, &texts) {
        None => {
            proof {
                assert forall|j: int|
                    0 <= j < cand_texts(replies@, self_did@).len() implies !turn_accepts(
                    *latest,
                    replies@,
                    self_did@,
                    j,
                ) by {
                    assert(texts@[j]@ == cand_texts(replies@, self_did@)[j]);
                }
            }
            Ok(TurnPlan { chosen: None, move_post: None, end: None })
        },
        Some(i) => {
            proof {
                assert(texts@[i as int]@ == cand_texts(replies@, self_did@)[i as int]);
                assert forall|j: int| 0 <= j < i implies !turn_accepts(
                    *latest,
                    replies@,
                    self_did@,
                    j,
                ) by {
                    assert(texts@[j]@ == cand_texts(replies@, self_did@)[j]);
                }
            }
            let idx = *idxs.get(i).unwrap();
            let target = replies.get(idx).unwrap();
            let mp = compose_move_reply(target, &checker);
            let st = checker.status();
            proof {
                assert(checker.record.model() =~~= model_after(
                    *latest,
                    replies@,
                    self_did@,
                    i as int,
                ));
            }
            let end: Option<GameEnd> = match st {
                GameStatus::Ongoing => None,
                _ => Some(
                    GameEnd {
                        summary: build_summary(display_number_of(&checker.record), st),
                        start: compose_game_start(),
                    },
                ),
            };
            Ok(TurnPlan { chosen: Some(i), move_post: Some(mp), end })
        },
    }
}

} // verus!
