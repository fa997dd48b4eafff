//! Store and dispatcher behaviour: idempotent delivery, lenient undo,
//! blocked-instance gating and broadcast fan-out.

use plume::actions::{local_follow_toggle, local_like_toggle, publish_post};
use plume::broadcast::{delivery_inboxes, reaction_recipients};
use plume::errors::Error;
use plume::inbox::{dispatch, Outcome};
use plume::model::{Activity, ActivityKind, ActorDoc, Role, UndoTarget};
use plume::resolver::{resolve_prepare, ResolveStep};
use plume::store::Store;

fn secret(tag: u8) -> Vec<u8> {
    let mut v = vec![0u8; 32];
    v[0] = tag;
    v
}

fn local_actor(s: &mut Store, name: &str, tag: u8) -> usize {
    s.insert_local_actor(
        format!("https://local.example/@/{}", name),
        name.to_string(),
        format!("https://local.example/@/{}/inbox", name),
        &"local.example".to_string(),
        secret(tag),
        Role::Normal,
    )
}

fn remote_doc(name: &str, domain: &str, shared: Option<&str>) -> ActorDoc {
    ActorDoc {
        uri: format!("https://{}/@/{}", domain, name),
        kind: "Person".to_string(),
        username: name.to_string(),
        public_key: vec![7u8; 32],
        inbox_uri: format!("https://{}/@/{}/inbox", domain, name),
        shared_inbox_uri: shared.map(|s| s.to_string()),
        domain: domain.to_string(),
    }
}

#[test]
fn idempotent_delivery_applies_once() {
    let mut s = Store::new();
    let author = local_actor(&mut s, "alice", 1);
    let post_idx = s.insert_post(
        "https://local.example/post/1".to_string(),
        "hello".to_string(),
        "body".to_string(),
        true,
        s.actors[author].id,
    );
    let sender_idx = s.insert_actor_from_doc(&remote_doc("bob", "far.example", None), true);
    let act = Activity {
        id: "https://far.example/act/like-1".to_string(),
        actor_uri: s.actors[sender_idx].uri.clone(),
        kind: ActivityKind::Like { object_uri: s.posts[post_idx].uri.clone() },
        published_at: 0,
    };
    let likes_before = s.likes.len();
    let first = dispatch(&mut s, &act, sender_idx);
    assert!(matches!(first.outcome, Outcome::Applied));
    assert_eq!(s.likes.len(), likes_before + 1);
    assert_eq!(first.notifications.len(), 1);

    let second = dispatch(&mut s, &act, sender_idx);
    assert!(matches!(second.outcome, Outcome::Duplicate));
    assert_eq!(s.likes.len(), likes_before + 1);
    assert_eq!(s.inbox_records.len(), 1);
    assert_eq!(second.notifications.len(), 0);
}

#[test]
fn undo_without_prior_effect_is_noop() {
    let mut s = Store::new();
    let author = local_actor(&mut s, "alice", 1);
    let post_idx = s.insert_post(
        "https://local.example/post/1".to_string(),
        "hello".to_string(),
        "body".to_string(),
        true,
        s.actors[author].id,
    );
    let sender_idx = s.insert_actor_from_doc(&remote_doc("bob", "far.example", None), true);
    let act = Activity {
        id: "https://far.example/act/undo-1".to_string(),
        actor_uri: s.actors[sender_idx].uri.clone(),
        kind: ActivityKind::Undo {
            undone: UndoTarget::Like { object_uri: s.posts[post_idx].uri.clone() },
        },
        published_at: 0,
    };
    let likes_before = s.likes.len();
    let r = dispatch(&mut s, &act, sender_idx);
    assert!(matches!(r.outcome, Outcome::Applied));
    assert_eq!(s.likes.len(), likes_before);
}

#[test]
fn undo_reverses_a_recorded_like() {
    let mut s = Store::new();
    let author = local_actor(&mut s, "alice", 1);
    let post_idx = s.insert_post(
        "https://local.example/post/1".to_string(),
        "hello".to_string(),
        "body".to_string(),
        true,
        s.actors[author].id,
    );
    let sender_idx = s.insert_actor_from_doc(&remote_doc("bob", "far.example", None), true);
    let uri = s.posts[post_idx].uri.clone();
    let like = Activity {
        id: "https://far.example/act/like-1".to_string(),
        actor_uri: s.actors[sender_idx].uri.clone(),
        kind: ActivityKind::Like { object_uri: uri.clone() },
        published_at: 0,
    };
    assert!(matches!(dispatch(&mut s, &like, sender_idx).outcome, Outcome::Applied));
    assert_eq!(s.likes.len(), 1);
    let undo = Activity {
        id: "https://far.example/act/undo-1".to_string(),
        actor_uri: s.actors[sender_idx].uri.clone(),
        kind: ActivityKind::Undo { undone: UndoTarget::Like { object_uri: uri } },
        published_at: 0,
    };
    assert!(matches!(dispatch(&mut s, &undo, sender_idx).outcome, Outcome::Applied));
    assert_eq!(s.likes.len(), 0);
}

#[test]
fn update_of_unknown_object_is_rejected_not_found() {
    let mut s = Store::new();
    let sender_idx = s.insert_actor_from_doc(&remote_doc("bob", "far.example", None), true);
    let act = Activity {
        id: "https://far.example/act/upd-1".to_string(),
        actor_uri: s.actors[sender_idx].uri.clone(),
        kind: ActivityKind::Update {
            object: plume::model::ArticleDoc {
                uri: "https://far.example/post/nope".to_string(),
                title: "t".to_string(),
                content: "c".to_string(),
            },
        },
        published_at: 0,
    };
    let r = dispatch(&mut s, &act, sender_idx);
    assert!(matches!(r.outcome, Outcome::Rejected(Error::NotFound)));
    assert!(s.inbox_records.is_empty());
}

#[test]
fn blocked_instance_short_circuits_resolution() {
    let mut s = Store::new();
    let idx = s.ensure_instance(&"bad.example".to_string(), false);
    s.toggle_block(idx);
    let r = resolve_prepare(&s, &"https://bad.example/@/mallory".to_string(), false);
    assert!(matches!(r, Err(Error::Blocked)));

    let ok = resolve_prepare(&s, &"https://good.example/@/carol".to_string(), false);
    match ok {
        Ok(ResolveStep::NeedFetch { uri }) => {
            assert_eq!(uri, "https://good.example/@/carol");
        }
        _ => panic!("expected a fetch step"),
    }
}

#[test]
fn broadcast_fan_out_counts_author_once() {
    let mut s = Store::new();
    let author = local_actor(&mut s, "alice", 1);
    let liker = local_actor(&mut s, "bob", 2);
    let author_id = s.actors[author].id;
    let liker_id = s.actors[liker].id;
    let post_idx = s.insert_post(
        "https://local.example/post/1".to_string(),
        "hello".to_string(),
        "body".to_string(),
        true,
        author_id,
    );
    let post_id = s.posts[post_idx].id;
    // The author also follows the liker.
    s.insert_follow(author_id, liker_id, String::new());
    let recipients = reaction_recipients(&s, liker_id, post_id);
    let author_count = recipients.iter().filter(|id| **id == author_id).count();
    assert_eq!(author_count, 1);
    assert!(recipients.contains(&author_id));
}

#[test]
fn shared_inbox_deduplicates_deliveries() {
    let mut s = Store::new();
    let a = s.insert_actor_from_doc(
        &remote_doc("bob", "far.example", Some("https://far.example/inbox")),
        true,
    );
    let b = s.insert_actor_from_doc(
        &remote_doc("carol", "far.example", Some("https://far.example/inbox")),
        true,
    );
    let c = s.insert_actor_from_doc(&remote_doc("dave", "other.example", None), true);
    let ids = vec![s.actors[a].id, s.actors[b].id, s.actors[c].id];
    let inboxes = delivery_inboxes(&s, &ids);
    assert_eq!(inboxes.len(), 2);
    assert!(inboxes.contains(&"https://far.example/inbox".to_string()));
    assert!(inboxes.contains(&"https://other.example/@/dave/inbox".to_string()));
}

#[test]
fn like_toggle_round_trip() {
    let mut s = Store::new();
    let author = local_actor(&mut s, "alice", 1);
    let liker = local_actor(&mut s, "bob", 2);
    let author_id = s.actors[author].id;
    let post_idx = s.insert_post(
        "https://local.example/post/1".to_string(),
        "hello".to_string(),
        "body".to_string(),
        true,
        author_id,
    );
    let liker_id = s.actors[liker].id;
    let post_id = s.posts[post_idx].id;
    let e1 = local_like_toggle(&mut s, liker, post_idx, "https://local.example/act/1".to_string());
    assert!(matches!(e1.activity.kind, ActivityKind::Like { .. }));
    assert_eq!(e1.notifications.len(), 1);
    assert_eq!(e1.notifications[0].target_actor_id, author_id);
    assert_eq!(s.likes.len(), 1);
    assert_eq!(s.likes[0].actor_id, liker_id);
    assert_eq!(s.likes[0].post_id, post_id);
    let e2 = local_like_toggle(&mut s, liker, post_idx, "https://local.example/act/2".to_string());
    assert!(matches!(
        e2.activity.kind,
        ActivityKind::Undo { undone: UndoTarget::Like { .. } }
    ));
    assert!(e2.notifications.is_empty());
    assert_eq!(s.likes.len(), 0);
}

#[test]
fn follow_toggle_delivers_to_target_inbox() {
    let mut s = Store::new();
    let follower = local_actor(&mut s, "alice", 1);
    let target = s.insert_actor_from_doc(&remote_doc("bob", "far.example", None), true);
    let e = local_follow_toggle(&mut s, follower, target, "https://local.example/act/f1".to_string());
    assert!(matches!(e.activity.kind, ActivityKind::Follow { .. }));
    assert_eq!(e.notifications.len(), 1);
    assert_eq!(e.notifications[0].actor_id, s.actors[follower].id);
    assert_eq!(e.notifications[0].target_actor_id, s.actors[target].id);
    assert_eq!(e.jobs.len(), 1);
    assert_eq!(e.jobs[0].inbox, "https://far.example/@/bob/inbox");
    assert_eq!(s.follows.len(), 1);
}

#[test]
fn publish_post_refuses_duplicate_uri() {
    let mut s = Store::new();
    let author = local_actor(&mut s, "alice", 1);
    let first = publish_post(
        &mut s,
        author,
        "https://local.example/post/1".to_string(),
        "hello".to_string(),
        "body".to_string(),
        false,
        "https://local.example/act/c1".to_string(),
    );
    assert!(first.is_ok());
    let effect = first.unwrap().1;
    assert!(effect.is_some());
    let second = publish_post(
        &mut s,
        author,
        "https://local.example/post/1".to_string(),
        "again".to_string(),
        "body".to_string(),
        false,
        "https://local.example/act/c2".to_string(),
    );
    assert!(matches!(second, Err(Error::StoreError)));
    assert_eq!(s.posts.len(), 1);
}
