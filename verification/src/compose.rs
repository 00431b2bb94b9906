//! Composition of outgoing posts: the move reply, the termination summary
//! and the fresh game start, with their threading rules and visible texts.

use vstd::prelude::*;

use crate::codec::{display_number, spec_encode_m, GameRecord, RecModel};
use crate::engine::{ki2_of, GameStatus};
use crate::moves::{usi_of_move, GameMove};
use crate::resolve::{last_move_ki2, MoveChecker};
use crate::scan::{FeedPost, PostRecord, PostRef, ReplyTarget};
use crate::text::{dec_of, dec_string, last_token};

verus! {

/// An outgoing post, as the feed layer must publish it: its visible text,
/// an optional board image carrying an encoded state as its alt-text, an
/// optional threading reference, and an optional quoted post.
pub struct OutgoingPost {
    pub text: String,
    pub image_alt: Option<String>,
    pub reply: Option<ReplyTarget>,
    pub quote: Option<PostRef>,
}

/// The threading rule: the reply's parent is the post replied to; its root
/// is inherited from that post's own root where it is itself a reply, else
/// the post replied to becomes the root. All moves of one game thus stay
/// under one root, whatever the reply depth.
pub open spec fn root_rule(rt: ReplyTarget, p: FeedPost) -> bool {
    &&& rt.parent.cid@ == p.cid@
    &&& rt.parent.uri@ == p.uri@
    &&& match p.record {
        PostRecord::Post { reply: Some(prev), .. } => rt.root.cid@ == prev.root.cid@
            && rt.root.uri@ == prev.root.uri@,
        _ => rt.root.cid@ == p.cid@ && rt.root.uri@ == p.uri@,
    }
}

/// Build the threading reference for a reply to `post`.
pub fn reply_ref(post: &FeedPost) -> (r: ReplyTarget)
    ensures
        root_rule(r, *post),
{
    let parent = PostRef { cid: post.cid.clone(), uri: post.uri.clone() };
    match &post.record {
        PostRecord::Post { reply: Some(prev), .. } => ReplyTarget {
            parent,
            root: prev.root.duplicate(),
        },
        _ => {
            let root = PostRef { cid: post.cid.clone(), uri: post.uri.clone() };
            ReplyTarget { parent, root }
        },
    }
}

/// The visible text of a move reply: the move number, counted from the
/// state's starting move count, then the move in contextual notation with
/// its standalone form in parentheses, or the standalone form alone where
/// the transcript is unavailable.
pub open spec fn move_text(m: RecModel) -> Seq<char>
    recommends
        m.moves.len() > 0,
{
    let num = dec_of(display_number(m));
    let usi = usi_of_move(m.moves.last());
    let tail = match ki2_of(spec_encode_m(m)) {
        Some(t) => match last_token(t) {
            Some(tok) => tok + " ("@ + usi + ")"@,
            None => usi,
        },
        None => usi,
    };
    num + "手目: "@ + tail
}

/// The displayed number of the latest move, computed from the starting
/// move count and the moves made.
pub fn display_number_of(rec: &GameRecord) -> (r: u128)
    requires
        rec.wf(),
        rec.moves@.len() > 0,
    ensures
        r as int == display_number(rec.model()),
{
    let base: u128 = match &rec.start {
        Some(sn) => sn.ply as u128,
        None => 1,
    };
    base + rec.moves.len() as u128 - 1
}

/// Compose the reply that publishes the move just applied: its text, the
/// board image whose alt-text carries the encoded new state, and the
/// threading reference to the post replied to.
pub fn compose_move_reply(target: &FeedPost, c: &MoveChecker) -> (r: OutgoingPost)
    requires
        c.wf(),
        c.record.moves@.len() > 0,
    ensures
        r.text@ == move_text(c.record.model()),
        match r.image_alt {
            Some(a) => a@ == spec_encode_m(c.record.model()),
            None => false,
        },
        match r.reply {
            Some(rt) => root_rule(rt, *target),
            None => false,
        },
        r.quote is None,
{
    let mut text = dec_string(display_number_of(&c.record));
    text.append("手目: ");
    proof {
        reveal_strlit("手目: ");
    }
    let last: GameMove = *c.record.moves.get(c.record.moves.len() - 1).unwrap();
    proof {
        assert(last == c.record.moves@.last());
    }
    let usi_str = crate::moves::move_usi_string(&last);
    match last_move_ki2(&c.usi) {
        Ok(Some(tok)) => {
            text.append(tok.as_str());
            text.append(" (");
            text.append(usi_str.as_str());
            text.append(")");
            proof {
                reveal_strlit(" (");
                reveal_strlit(")");
                assert(text@ =~= move_text(c.record.model()));
            }
        },
        _ => {
            text.append(usi_str.as_str());
            proof {
                assert(text@ =~= move_text(c.record.model()));
            }
        },
    }
    OutgoingPost {
        text,
        image_alt: Some(c.usi.clone()),
        reply: Some(reply_ref(target)),
        quote: None,
    }
}

/// The outcome in prose.
pub open spec fn result_word(st: GameStatus) -> Seq<char> {
    match st {
        GameStatus::BlackWins => "先手の勝ち"@,
        GameStatus::WhiteWins => "後手の勝ち"@,
        GameStatus::Draw => "引き分け"@,
        GameStatus::Ongoing => Seq::empty(),
    }
}

/// The text of a termination summary: the number of moves played and the
/// outcome.
pub open spec fn summary_text(n: int, st: GameStatus) -> Seq<char> {
    dec_of(n) + "手で"@ + result_word(st)
}

/// The termination summary's visible text for a finished game whose last
/// move was number `n`.
pub fn build_summary(n: u128, st: GameStatus) -> (r: String)
    requires
        st != GameStatus::Ongoing,
    ensures
        r@ == summary_text(n as int, st),
{
    let mut s = dec_string(n);
    s.append("手で");
    proof {
        reveal_strlit("手で");
    }
    match st {
        GameStatus::BlackWins => {
            s.append("先手の勝ち");
            proof {
                reveal_strlit("先手の勝ち");
            }
        },
        GameStatus::WhiteWins => {
            s.append("後手の勝ち");
            proof {
                reveal_strlit("後手の勝ち");
            }
        },
        _ => {
            s.append("引き分け");
            proof {
                reveal_strlit("引き分け");
            }
        },
    }
    proof {
        assert(s@ =~= summary_text(n as int, st));
    }
    s
}

/// Compose the termination summary: a quote-post of the just-published move
/// reply, not a threaded reply, carrying the outcome in prose.
pub fn compose_termination(published: &PostRef, summary: &String) -> (r: OutgoingPost)
    ensures
        r.text@ == summary@,
        match r.quote {
            Some(q) => q.cid@ == published.cid@ && q.uri@ == published.uri@,
            None => false,
        },
        r.reply is None,
        r.image_alt is None,
{
    OutgoingPost {
        text: summary.clone(),
        image_alt: None,
        reply: None,
        quote: Some(published.duplicate()),
    }
}

/// Compose the post that begins a fresh game: the initial position's board
/// image, with the initial state encoded in its alt-text, threaded nowhere.
pub fn compose_game_start() -> (r: OutgoingPost)
    ensures
        r.text@ == "対局開始"@,
        match r.image_alt {
            Some(a) => a@ == spec_encode_m(crate::codec::initial_model()),
            None => false,
        },
        r.reply is None,
        r.quote is None,
{
    let r = OutgoingPost {
        text: String::from_str("対局開始"),
        image_alt: Some(String::from_str("startpos")),
        reply: None,
        quote: None,
    };
    proof {
        assert(crate::codec::moves_part(Seq::<GameMove>::empty()) =~= Seq::<char>::empty());
        assert("startpos"@ + Seq::<char>::empty() =~= "startpos"@);
    }
    r
}

} // verus!
