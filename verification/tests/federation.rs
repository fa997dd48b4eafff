//! End-to-end federation flows driven through the inbox step machine with a
//! simulated network: signature round trips, key rotation tolerance,
//! dedup under redelivery, and background enrichment.

use ed25519_dalek::SigningKey;
use plume::enrich::{enrichment_plan, import_followers, import_outbox, EnrichmentQueue};
use plume::errors::Error;
use plume::inbox::{inbox_receive, IncomingRequest, InboxStep, Outcome};
use plume::model::{Activity, ActivityKind, ActorDoc, Role};
use plume::actions::local_follow_toggle;
use plume::resolver::{refetch_commit, resolve_commit, resolve_prepare, ResolveStep};
use plume::signatures::{digest_value, sign_request, Signature};
use plume::signing::{push_request_target, Header};
use plume::store::Store;

fn secret(tag: u8) -> Vec<u8> {
    let mut v = vec![0u8; 32];
    v[0] = tag;
    v
}

fn public_key_for(secret_key: &[u8]) -> Vec<u8> {
    let bytes: [u8; 32] = secret_key.try_into().unwrap();
    SigningKey::from_bytes(&bytes).verifying_key().to_bytes().to_vec()
}

fn doc_for(name: &str, domain: &str, secret_key: &[u8]) -> ActorDoc {
    ActorDoc {
        uri: format!("https://{}/@/{}", domain, name),
        kind: "Person".to_string(),
        username: name.to_string(),
        public_key: public_key_for(secret_key),
        inbox_uri: format!("https://{}/@/{}/inbox", domain, name),
        shared_inbox_uri: None,
        domain: domain.to_string(),
    }
}

/// Build a signed delivery of `activity` from a sender holding `sender_secret`.
fn signed_request(activity: Activity, sender_secret: &Vec<u8>, key_id: &str) -> IncomingRequest {
    let body: Vec<u8> = plume::render::render(&activity).into_bytes();
    let mut headers: Vec<Header> = Vec::new();
    headers.push(Header {
        name: "host".to_string(),
        value: "local.example".to_string(),
    });
    headers.push(Header {
        name: "digest".to_string(),
        value: digest_value(&body),
    });
    push_request_target(&mut headers, "POST", "/inbox");
    let claimed = vec![
        "(request-target)".to_string(),
        "host".to_string(),
        "digest".to_string(),
    ];
    let signature: Signature =
        sign_request(sender_secret, &headers, claimed, key_id.to_string()).unwrap();
    IncomingRequest {
        headers,
        body,
        signature,
        activity,
        embedded_signature: None,
    }
}

fn local_setup() -> (Store, usize) {
    let mut s = Store::new();
    let alice = s.insert_local_actor(
        "https://local.example/@/alice".to_string(),
        "alice".to_string(),
        "https://local.example/@/alice/inbox".to_string(),
        &"local.example".to_string(),
        secret(1),
        Role::Normal,
    );
    (s, alice)
}

#[test]
fn signed_follow_verifies_and_applies() {
    let (mut s, _alice) = local_setup();
    let bob_secret = secret(9);
    let bob_doc = doc_for("bob", "far.example", &bob_secret);
    let bob_uri = bob_doc.uri.clone();
    s.insert_actor_from_doc(&bob_doc, true);
    let follow = Activity {
        id: "https://far.example/act/f1".to_string(),
        actor_uri: bob_uri.clone(),
        kind: ActivityKind::Follow {
            target_uri: "https://local.example/@/alice".to_string(),
        },
        published_at: 0,
    };
    let req = signed_request(follow, &bob_secret, &format!("{}#main-key", bob_uri));
    match inbox_receive(&mut s, &req, false) {
        InboxStep::Done(reply) => {
            assert!(matches!(reply.outcome, Outcome::Applied));
            assert_eq!(s.follows.len(), 1);
            assert_eq!(reply.notifications.len(), 1);
        }
        _ => panic!("expected a settled delivery"),
    }
    // Redelivery of the same activity URI changes nothing.
    let follows_before = s.follows.len();
    let records_before = s.inbox_records.len();
    let again = signed_request(
        Activity {
            id: "https://far.example/act/f1".to_string(),
            actor_uri: bob_uri.clone(),
            kind: ActivityKind::Follow {
                target_uri: "https://local.example/@/alice".to_string(),
            },
            published_at: 0,
        },
        &bob_secret,
        &format!("{}#main-key", bob_uri),
    );
    match inbox_receive(&mut s, &again, false) {
        InboxStep::Done(reply) => {
            assert!(matches!(reply.outcome, Outcome::Duplicate));
        }
        _ => panic!("expected a settled delivery"),
    }
    assert_eq!(s.follows.len(), follows_before);
    assert_eq!(s.inbox_records.len(), records_before);
}

#[test]
fn tampering_rejects_the_delivery() {
    let (mut s, _alice) = local_setup();
    let bob_secret = secret(9);
    let bob_doc = doc_for("bob", "far.example", &bob_secret);
    let bob_uri = bob_doc.uri.clone();
    s.insert_actor_from_doc(&bob_doc, true);
    let act = || Activity {
        id: "https://far.example/act/f2".to_string(),
        actor_uri: bob_uri.clone(),
        kind: ActivityKind::Follow {
            target_uri: "https://local.example/@/alice".to_string(),
        },
        published_at: 0,
    };
    let key_id = format!("{}#main-key", bob_uri);

    // A flipped body byte no longer matches the claimed digest.
    let mut req = signed_request(act(), &bob_secret, &key_id);
    req.body[0] ^= 1;
    match inbox_receive(&mut s, &req, false) {
        InboxStep::Done(reply) => {
            assert!(matches!(reply.outcome, Outcome::Rejected(Error::DigestMismatch)));
        }
        _ => panic!("expected a settled delivery"),
    }

    // A flipped signature character fails verification; with a fresh key
    // already retried, the delivery is rejected outright.
    let mut req = signed_request(act(), &bob_secret, &key_id);
    let mut sig = req.signature.signature.into_bytes();
    sig[0] = if sig[0] == b'A' { b'B' } else { b'A' };
    req.signature.signature = String::from_utf8(sig).unwrap();
    match inbox_receive(&mut s, &req, true) {
        InboxStep::Done(reply) => {
            assert!(matches!(reply.outcome, Outcome::Rejected(Error::InvalidSignature)));
        }
        _ => panic!("expected a settled delivery"),
    }

    // A flipped covered header changes the signing string.
    let mut req = signed_request(act(), &bob_secret, &key_id);
    req.headers[0].value = "evil.example".to_string();
    match inbox_receive(&mut s, &req, true) {
        InboxStep::Done(reply) => {
            assert!(matches!(reply.outcome, Outcome::Rejected(Error::InvalidSignature)));
        }
        _ => panic!("expected a settled delivery"),
    }
    assert!(s.inbox_records.is_empty());
}

#[test]
fn key_rotation_triggers_refetch_then_succeeds() {
    let (mut s, _alice) = local_setup();
    let old_secret = secret(9);
    let new_secret = secret(10);
    // The node cached bob under his old key.
    let stale_doc = doc_for("bob", "far.example", &old_secret);
    let bob_uri = stale_doc.uri.clone();
    s.insert_actor_from_doc(&stale_doc, true);
    // Bob rotated his key and signs with the new one.
    let act = Activity {
        id: "https://far.example/act/f3".to_string(),
        actor_uri: bob_uri.clone(),
        kind: ActivityKind::Follow {
            target_uri: "https://local.example/@/alice".to_string(),
        },
        published_at: 0,
    };
    let req = signed_request(act, &new_secret, &format!("{}#main-key", bob_uri));
    let uri = match inbox_receive(&mut s, &req, false) {
        InboxStep::NeedRefetch { uri } => uri,
        _ => panic!("expected a refetch request"),
    };
    assert_eq!(uri, bob_uri);
    // The authoritative refetch returns the rotated key.
    let fresh_doc = doc_for("bob", "far.example", &new_secret);
    refetch_commit(&mut s, &uri, Some(&"Person".to_string()), Some(&fresh_doc)).unwrap();
    match inbox_receive(&mut s, &req, true) {
        InboxStep::Done(reply) => {
            assert!(matches!(reply.outcome, Outcome::Applied));
        }
        _ => panic!("expected a settled delivery"),
    }
    assert_eq!(s.follows.len(), 1);
}

#[test]
fn unknown_signer_asks_for_a_fetch_and_blocked_domains_never_fetch() {
    let (mut s, _alice) = local_setup();
    let bob_secret = secret(9);
    let bob_doc = doc_for("bob", "far.example", &bob_secret);
    let bob_uri = bob_doc.uri.clone();
    let act = Activity {
        id: "https://far.example/act/f4".to_string(),
        actor_uri: bob_uri.clone(),
        kind: ActivityKind::Follow {
            target_uri: "https://local.example/@/alice".to_string(),
        },
        published_at: 0,
    };
    let req = signed_request(act, &bob_secret, &format!("{}#main-key", bob_uri));
    let uri = match inbox_receive(&mut s, &req, false) {
        InboxStep::NeedActor { uri } => uri,
        _ => panic!("expected an actor fetch request"),
    };
    resolve_commit(&mut s, &uri, Some(&"Person".to_string()), Some(&bob_doc)).unwrap();
    match inbox_receive(&mut s, &req, false) {
        InboxStep::Done(reply) => assert!(matches!(reply.outcome, Outcome::Applied)),
        _ => panic!("expected a settled delivery"),
    }

    // The same delivery from a blocked domain is discarded without a fetch.
    let mut blocked = Store::new();
    local_fill(&mut blocked);
    let idx = blocked.ensure_instance(&"far.example".to_string(), false);
    blocked.toggle_block(idx);
    let act2 = Activity {
        id: "https://far.example/act/f5".to_string(),
        actor_uri: bob_uri.clone(),
        kind: ActivityKind::Follow {
            target_uri: "https://local.example/@/alice".to_string(),
        },
        published_at: 0,
    };
    let req2 = signed_request(act2, &bob_secret, &format!("{}#main-key", bob_uri));
    match inbox_receive(&mut blocked, &req2, false) {
        InboxStep::Done(reply) => {
            assert!(matches!(reply.outcome, Outcome::Rejected(Error::Blocked)));
        }
        _ => panic!("a blocked domain must not be fetched"),
    }
}

fn local_fill(s: &mut Store) {
    s.insert_local_actor(
        "https://local.example/@/alice".to_string(),
        "alice".to_string(),
        "https://local.example/@/alice/inbox".to_string(),
        &"local.example".to_string(),
        secret(1),
        Role::Normal,
    );
}

#[test]
fn end_to_end_follow_discovery_and_enrichment() {
    // Actor A (local) follows actor B (remote, previously unknown).
    let (mut s, alice_idx) = local_setup();
    let b_secret = secret(20);
    let b_doc = doc_for("bianca", "far.example", &b_secret);
    let b_uri = b_doc.uri.clone();

    // Resolution: local miss, signed fetch, persist, return.
    let step = resolve_prepare(&s, &b_uri, false).unwrap();
    let b_idx = match step {
        ResolveStep::NeedFetch { uri } => {
            resolve_commit(&mut s, &uri, Some(&"Person".to_string()), Some(&b_doc)).unwrap()
        }
        ResolveStep::Local { idx } => idx,
    };
    assert_eq!(s.actors[b_idx].uri, b_uri);

    // Follow relation inserted, delivery job addressed to B's inbox.
    let effect = local_follow_toggle(
        &mut s,
        alice_idx,
        b_idx,
        "https://local.example/act/follow-b".to_string(),
    );
    assert_eq!(s.follows.len(), 1);
    assert_eq!(effect.jobs.len(), 1);

    // A discovery event fires; the worker pool is bounded.
    let mut queue = EnrichmentQueue::new(2);
    queue.push_event(s.actors[b_idx].id);
    let event = queue.begin_work().unwrap();
    assert_eq!(event, s.actors[b_idx].id);
    let plan = enrichment_plan(&s, b_idx);
    assert!(plan.import_outbox);
    assert!(plan.import_followers);

    // Outbox import: up to N of B's existing articles, bad items tolerated.
    let outbox = vec![
        Activity {
            id: "https://far.example/act/c1".to_string(),
            actor_uri: b_uri.clone(),
            kind: ActivityKind::Create {
                object: plume::model::ArticleDoc {
                    uri: "https://far.example/post/1".to_string(),
                    title: "one".to_string(),
                    content: "first".to_string(),
                },
            },
            published_at: 0,
        },
        Activity {
            id: "https://far.example/act/l1".to_string(),
            actor_uri: b_uri.clone(),
            kind: ActivityKind::Like {
                object_uri: "https://far.example/post/1".to_string(),
            },
            published_at: 0,
        },
        Activity {
            id: "https://far.example/act/c2".to_string(),
            actor_uri: b_uri.clone(),
            kind: ActivityKind::Create {
                object: plume::model::ArticleDoc {
                    uri: "https://far.example/post/2".to_string(),
                    title: "two".to_string(),
                    content: "second".to_string(),
                },
            },
            published_at: 0,
        },
    ];
    let applied = import_outbox(&mut s, b_idx, &outbox, 10);
    assert_eq!(applied, 2);
    assert_eq!(s.posts.len(), 2);

    // Follower import: individual failures do not abort the batch.
    let c_doc = doc_for("carol", "elsewhere.example", &secret(21));
    let followers = vec![Some(c_doc), None];
    let imported = import_followers(&mut s, b_idx, &followers);
    assert_eq!(imported, 1);
    assert_eq!(s.follows.len(), 2);

    // A duplicate inbound follow delivery for the same activity URI
    // changes nothing.
    let follow_act = Activity {
        id: "https://far.example/act/fx".to_string(),
        actor_uri: b_uri.clone(),
        kind: ActivityKind::Follow {
            target_uri: "https://local.example/@/alice".to_string(),
        },
        published_at: 0,
    };
    let req = signed_request(follow_act.clone(), &b_secret, &format!("{}#main-key", b_uri));
    match inbox_receive(&mut s, &req, false) {
        InboxStep::Done(reply) => assert!(matches!(reply.outcome, Outcome::Applied)),
        _ => panic!("expected a settled delivery"),
    }
    let follows_before = s.follows.len();
    let req2 = signed_request(follow_act, &b_secret, &format!("{}#main-key", b_uri));
    match inbox_receive(&mut s, &req2, false) {
        InboxStep::Done(reply) => assert!(matches!(reply.outcome, Outcome::Duplicate)),
        _ => panic!("expected a settled delivery"),
    }
    assert_eq!(s.follows.len(), follows_before);
    queue.finish_work();
}

#[test]
fn embedded_object_signature_is_equally_sufficient() {
    let (mut s, _alice) = local_setup();
    let bob_secret = secret(9);
    let bob_doc = doc_for("bob", "far.example", &bob_secret);
    let bob_uri = bob_doc.uri.clone();
    s.insert_actor_from_doc(&bob_doc, true);
    let act = Activity {
        id: "https://far.example/act/f9".to_string(),
        actor_uri: bob_uri.clone(),
        kind: ActivityKind::Follow {
            target_uri: "https://local.example/@/alice".to_string(),
        },
        published_at: 0,
    };
    // The header signature is stripped by an intermediary, but the
    // document carries a valid object-level signature.
    let embedded = plume::signatures::sign_activity(&bob_secret, &act);
    let mut req = signed_request(act, &bob_secret, &format!("{}#main-key", bob_uri));
    req.signature.signature = "ZZZZ".to_string();
    req.embedded_signature = Some(embedded);
    match inbox_receive(&mut s, &req, true) {
        InboxStep::Done(reply) => assert!(matches!(reply.outcome, Outcome::Applied)),
        _ => panic!("expected a settled delivery"),
    }
}

#[test]
fn accept_is_an_explicit_activity_to_the_follower() {
    let (mut s, alice_idx) = local_setup();
    let bob_idx = s.insert_actor_from_doc(&doc_for("bob", "far.example", &secret(9)), true);
    let effect = plume::actions::accept_follow(
        &s,
        alice_idx,
        bob_idx,
        "https://far.example/act/f1".to_string(),
        "https://local.example/act/accept-1".to_string(),
    );
    assert!(matches!(effect.activity.kind, ActivityKind::Accept { .. }));
    assert_eq!(effect.jobs.len(), 1);
    assert_eq!(effect.jobs[0].inbox, "https://far.example/@/bob/inbox");
}

#[test]
fn key_rotation_keeps_identity() {
    let (mut s, alice_idx) = local_setup();
    let uri_before = s.actors[alice_idx].uri.clone();
    let key_before = s.actors[alice_idx].public_key.clone();
    s.rotate_local_key(alice_idx, secret(42));
    assert_eq!(s.actors[alice_idx].uri, uri_before);
    assert_ne!(s.actors[alice_idx].public_key, key_before);
    assert_eq!(s.actors[alice_idx].public_key, public_key_for(&secret(42)));
}
