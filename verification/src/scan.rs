//! The model of feed posts and the candidate scan: which replies to the
//! bot's latest post are considered, and in what order.
//!
//! Replies are given in the order the feed returns them, oldest first;
//! candidates are presented newest first, so a late correction by a player
//! overrides earlier attempts. Replies whose record is not a readable post,
//! and the bot's own replies, are skipped silently.

use vstd::prelude::*;

verus! {

/// The identifier pair of a feed post.
pub struct PostRef {
    pub cid: String,
    pub uri: String,
}

impl PostRef {
    pub fn duplicate(&self) -> (r: PostRef)
        ensures
            r.cid@ == self.cid@,
            r.uri@ == self.uri@,
    {
        PostRef { cid: self.cid.clone(), uri: self.uri.clone() }
    }
}

/// Where a reply is threaded: its immediate parent and the root of its
/// thread.
pub struct ReplyTarget {
    pub parent: PostRef,
    pub root: PostRef,
}

/// The payload of a feed entry. Records come in several shapes; only a
/// readable post is usable, everything else is never a candidate.
pub enum PostRecord {
    Post { text: String, alt: Option<String>, reply: Option<ReplyTarget> },
    Other,
}

/// A feed post: its identifiers, its author, and its record.
pub struct FeedPost {
    pub cid: String,
    pub uri: String,
    pub author: String,
    pub record: PostRecord,
}

/// Whether a reply is eligible as a candidate: a readable post record, not
/// authored by the bot itself.
pub open spec fn is_candidate(p: FeedPost, self_did: Seq<char>) -> bool {
    p.record is Post && p.author@ != self_did
}

/// The text of a post, empty where the record is not a post.
pub open spec fn text_of(p: FeedPost) -> Seq<char> {
    match p.record {
        PostRecord::Post { text, .. } => text@,
        PostRecord::Other => Seq::empty(),
    }
}

/// The candidate indices below `h`, newest first: each index of an eligible
/// reply, strictly descending.
pub open spec fn scan_below(replies: Seq<FeedPost>, self_did: Seq<char>, h: int) -> Seq<int>
    decreases h,
{
    if h <= 0 {
        Seq::empty()
    } else {
        (if is_candidate(replies[h - 1], self_did) {
            seq![h - 1]
        } else {
            Seq::empty()
        }) + scan_below(replies, self_did, h - 1)
    }
}

/// The scan order over a whole reply list.
pub open spec fn scan_order(replies: Seq<FeedPost>, self_did: Seq<char>) -> Seq<int> {
    scan_below(replies, self_did, replies.len() as int)
}

/// The scan is sound and complete: it lists exactly the eligible indices,
/// and newest first.
pub proof fn lemma_scan_props(replies: Seq<FeedPost>, self_did: Seq<char>, h: int)
    requires
        0 <= h <= replies.len(),
    ensures
        forall|k: int|
            0 <= k < scan_below(replies, self_did, h).len() ==> {
                let j = #[trigger] scan_below(replies, self_did, h)[k];
                0 <= j < h && is_candidate(replies[j], self_did)
            },
        forall|a: int, b: int|
            0 <= a < b < scan_below(replies, self_did, h).len() ==> #[trigger] scan_below(
                replies,
                self_did,
                h,
            )[a] > #[trigger] scan_below(replies, self_did, h)[b],
        forall|j: int|
            0 <= j < h && is_candidate(replies[j], self_did) ==> scan_below(
                replies,
                self_did,
                h,
            ).contains(j),
    decreases h,
{
    if h > 0 {
        lemma_scan_props(replies, self_did, h - 1);
        let s = scan_below(replies, self_did, h);
        let rest = scan_below(replies, self_did, h - 1);
        if is_candidate(replies[h - 1], self_did) {
            assert(s == seq![h - 1] + rest);
            assert forall|j: int|
                0 <= j < h && is_candidate(replies[j], self_did) implies s.contains(j) by {
                if j == h - 1 {
                    assert(s[0] == h - 1);
                } else {
                    assert(rest.contains(j));
                    let k = choose|k: int| 0 <= k < rest.len() && rest[k] == j;
                    assert(s[k + 1] == j);
                }
            }
        } else {
            assert(s == Seq::<int>::empty() + rest);
            assert(s =~= rest);
            assert forall|j: int|
                0 <= j < h && is_candidate(replies[j], self_did) implies s.contains(j) by {
                assert(j != h - 1);
                assert(rest.contains(j));
            }
        }
    }
}

/// The indices of the candidate replies, newest first.
pub fn scan_candidates(replies: &Vec<FeedPost>, self_did: &String) -> (r: Vec<usize>)
    ensures
        r@.map_values(|u: usize| u as int) == scan_order(replies@, self_did@),
{
    let n = replies.len();
    let mut r: Vec<usize> = Vec::new();
    let mut i: usize = n;
    proof {
        assert(r@.map_values(|u: usize| u as int) =~= Seq::<int>::empty());
    }
    while i > 0
        invariant
            0 <= i <= n,
            n == replies@.len(),
            r@.map_values(|u: usize| u as int) + scan_below(replies@, self_did@, i as int)
                == scan_below(replies@, self_did@, n as int),
        decreases i,
    {
        let idx = i - 1;
        let p = replies.get(idx).unwrap();
        let is_post = match &p.record {
            PostRecord::Post { .. } => true,
            PostRecord::Other => false,
        };
        let own = p.author.eq(self_did);
        let ghost before = r@.map_values(|u: usize| u as int);
        if is_post && !own {
            r.push(idx);
            proof {
                assert(r@.map_values(|u: usize| u as int) =~= before.push(idx as int));
            }
        }
        proof {
            let full = scan_below(replies@, self_did@, n as int);
            let lower = scan_below(replies@, self_did@, idx as int);
            if is_candidate(replies@[idx as int], self_did@) {
                assert(scan_below(replies@, self_did@, i as int) == seq![idx as int] + lower);
                assert(before.push(idx as int) + lower =~= before + (seq![idx as int] + lower));
            } else {
                assert(scan_below(replies@, self_did@, i as int) == Seq::<int>::empty() + lower);
                assert(Seq::<int>::empty() + lower =~= lower);
                assert(before + (Seq::<int>::empty() + lower) =~= before + lower);
            }
        }
        i = idx;
    }
    proof {
        let mapped = r@.map_values(|u: usize| u as int);
        assert(mapped + scan_below(replies@, self_did@, 0) =~= mapped);
    }
    r
}

} // verus!
