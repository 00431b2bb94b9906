//! Whole-invocation scenarios: scan order, threading, termination, and the
//! quiet outcomes.

use shogi_thread_bot::compose::{compose_termination, reply_ref};
use shogi_thread_bot::error::Error;
use shogi_thread_bot::orchestrate::run_turn;
use shogi_thread_bot::scan::{scan_candidates, FeedPost, PostRecord, PostRef, ReplyTarget};

const BOT: &str = "did:bot";

fn post(n: &str, author: &str, text: &str, alt: Option<&str>) -> FeedPost {
    FeedPost {
        cid: format!("cid-{n}"),
        uri: format!("uri-{n}"),
        author: String::from(author),
        record: PostRecord::Post {
            text: String::from(text),
            alt: alt.map(String::from),
            reply: None,
        },
    }
}

fn opaque(n: &str, author: &str) -> FeedPost {
    FeedPost {
        cid: format!("cid-{n}"),
        uri: format!("uri-{n}"),
        author: String::from(author),
        record: PostRecord::Other,
    }
}

#[test]
fn candidates_come_newest_first() {
    // Replies arrive oldest first: t1, t2, t3. Candidates are presented
    // in order t3, t2, t1.
    let replies = vec![
        post("t1", "alice", "2g2f", None),
        post("t2", "bob", "bad", None),
        post("t3", "carol", "7g7f", None),
    ];
    let idxs = scan_candidates(&replies, &String::from(BOT));
    assert_eq!(idxs, vec![2, 1, 0]);
}

#[test]
fn own_posts_and_opaque_records_are_skipped() {
    let replies = vec![
        post("t1", "alice", "2g2f", None),
        post("t2", BOT, "3c3d", None),
        opaque("t3", "bob"),
        post("t4", "carol", "7g7f", None),
    ];
    let idxs = scan_candidates(&replies, &String::from(BOT));
    assert_eq!(idxs, vec![3, 0]);
}

#[test]
fn threading_root_is_inherited() {
    let mut p = post("parent", "alice", "x", None);
    p.record = PostRecord::Post {
        text: String::from("x"),
        alt: None,
        reply: Some(ReplyTarget {
            parent: PostRef { cid: String::from("cid-mid"), uri: String::from("uri-mid") },
            root: PostRef { cid: String::from("cid-root"), uri: String::from("uri-root") },
        }),
    };
    let rt = reply_ref(&p);
    assert_eq!(rt.parent.cid, "cid-parent");
    assert_eq!(rt.parent.uri, "uri-parent");
    assert_eq!(rt.root.cid, "cid-root");
    assert_eq!(rt.root.uri, "uri-root");
}

#[test]
fn threading_root_defaults_to_parent() {
    let p = post("top", "alice", "x", None);
    let rt = reply_ref(&p);
    assert_eq!(rt.parent.cid, "cid-top");
    assert_eq!(rt.root.cid, "cid-top");
    assert_eq!(rt.root.uri, "uri-top");
}

#[test]
fn first_candidate_in_scan_order_wins() {
    // Scan order is ["7g7f", "bad", "2g2f"]; "7g7f" is legal, so it is
    // applied and the others are never taken.
    let latest = post("latest", BOT, "start", Some("startpos"));
    let replies = vec![
        post("t1", "alice", "2g2f", None),
        post("t2", "bob", "bad", None),
        post("t3", "carol", "7g7f", None),
    ];
    let plan = run_turn(&latest, &String::from(BOT), &replies).unwrap();
    assert_eq!(plan.chosen, Some(0));
    let mp = plan.move_post.unwrap();
    assert_eq!(mp.image_alt.unwrap(), "startpos moves 7g7f");
    assert_eq!(mp.text, "1手目: ▲７六歩 (7g7f)");
    let rt = mp.reply.unwrap();
    assert_eq!(rt.parent.cid, "cid-t3");
    assert_eq!(rt.root.cid, "cid-t3");
    assert!(mp.quote.is_none());
    assert!(plan.end.is_none());
}

#[test]
fn failing_candidates_are_skipped_not_fatal() {
    // Newest reply is unparseable, the next proposes an illegal move; the
    // oldest is applied.
    let latest = post("latest", BOT, "start", Some("startpos"));
    let replies = vec![
        post("t1", "alice", "7g7f", None),
        post("t2", "bob", "7g7e", None),
        post("t3", "carol", "bad", None),
    ];
    let plan = run_turn(&latest, &String::from(BOT), &replies).unwrap();
    assert_eq!(plan.chosen, Some(2));
    let mp = plan.move_post.unwrap();
    assert_eq!(mp.image_alt.unwrap(), "startpos moves 7g7f");
    assert_eq!(mp.reply.unwrap().parent.cid, "cid-t1");
}

#[test]
fn no_valid_candidate_publishes_nothing() {
    let latest = post("latest", BOT, "start", Some("startpos"));
    let replies = vec![post("t1", "alice", "nonsense", None), post("t2", "bob", "7g7e", None)];
    let plan = run_turn(&latest, &String::from(BOT), &replies).unwrap();
    assert_eq!(plan.chosen, None);
    assert!(plan.move_post.is_none());
    assert!(plan.end.is_none());
}

#[test]
fn corrupted_state_restarts_from_initial() {
    let latest = post("latest", BOT, "start", Some("#corrupted#"));
    let replies = vec![post("t1", "alice", "7g7f", None)];
    let plan = run_turn(&latest, &String::from(BOT), &replies).unwrap();
    assert_eq!(plan.move_post.unwrap().image_alt.unwrap(), "startpos moves 7g7f");
}

#[test]
fn missing_image_means_fresh_game() {
    let latest = post("latest", BOT, "start", None);
    let replies = vec![post("t1", "alice", "7g7f", None)];
    let plan = run_turn(&latest, &String::from(BOT), &replies).unwrap();
    assert_eq!(plan.move_post.unwrap().image_alt.unwrap(), "startpos moves 7g7f");
}

#[test]
fn unreadable_latest_record_is_fatal() {
    let latest = opaque("latest", BOT);
    let replies = vec![post("t1", "alice", "7g7f", None)];
    match run_turn(&latest, &String::from(BOT), &replies) {
        Err(e) => assert_eq!(e, Error::NotFeedPostRecord),
        Ok(_) => panic!("expected an error"),
    }
}

#[test]
fn game_end_publishes_summary_and_new_game() {
    // Both kings shuffle until the position repeats a fourth time: the
    // twelfth move draws the game, and the plan carries exactly the
    // summary and the fresh-game post besides the move reply.
    let latest = post(
        "latest",
        BOT,
        "start",
        Some("startpos moves 5i5h 5a5b 5h5i 5b5a 5i5h 5a5b 5h5i 5b5a 5i5h 5a5b 5h5i"),
    );
    let replies = vec![post("t1", "alice", "5b5a", None)];
    let plan = run_turn(&latest, &String::from(BOT), &replies).unwrap();
    let mp = plan.move_post.unwrap();
    assert!(mp.text.starts_with("12手目: "), "unexpected text: {}", mp.text);
    let end = plan.end.unwrap();
    assert_eq!(end.summary, "12手で引き分け");
    assert_eq!(end.start.text, "対局開始");
    assert_eq!(end.start.image_alt.unwrap(), "startpos");
    assert!(end.start.reply.is_none());
    assert!(end.start.quote.is_none());
    // The summary quotes the published move reply.
    let published = PostRef { cid: String::from("cid-new"), uri: String::from("uri-new") };
    let summary_post = compose_termination(&published, &end.summary);
    assert_eq!(summary_post.text, "12手で引き分け");
    assert_eq!(summary_post.quote.unwrap().cid, "cid-new");
    assert!(summary_post.reply.is_none());
    assert!(summary_post.image_alt.is_none());
}

#[test]
fn game_continues_from_a_midgame_snapshot() {
    // A legacy full-state snapshot continues rather than restarting: the
    // move number counts from the snapshot's move count.
    let latest = post(
        "latest",
        BOT,
        "start",
        Some("sfen lnsgkgsnl/1r5b1/ppppppppp/9/9/9/PPPPPPPPP/1B5R1/LNSGKGSNL w - 2 moves 3c3d"),
    );
    let replies = vec![post("t1", "alice", "7g7f", None)];
    let plan = run_turn(&latest, &String::from(BOT), &replies).unwrap();
    let mp = plan.move_post.unwrap();
    assert_eq!(
        mp.image_alt.unwrap(),
        "sfen lnsgkgsnl/1r5b1/ppppppppp/9/9/9/PPPPPPPPP/1B5R1/LNSGKGSNL w - 2 moves 3c3d 7g7f"
    );
    assert!(mp.text.starts_with("3手目: "), "unexpected text: {}", mp.text);
    assert!(plan.end.is_none());
}

#[test]
fn ongoing_game_gets_no_summary() {
    let latest = post("latest", BOT, "start", Some("startpos moves 7g7f"));
    let replies = vec![post("t1", "alice", "3c3d", None)];
    let plan = run_turn(&latest, &String::from(BOT), &replies).unwrap();
    assert_eq!(plan.move_post.unwrap().image_alt.unwrap(), "startpos moves 7g7f 3c3d");
    assert!(plan.end.is_none());
}
