//! The inbox dispatcher: the protocol state machine that deduplicates,
//! type-switches and applies inbound activities.
//!
//! An activity moves from received to verified, then to exactly one of
//! duplicate (its URI is already in the dedup ledger), applied (its effects
//! are written and the ledger entry recorded) or rejected (the store is
//! left untouched). The ledger write is what makes redelivery a no-op.

use crate::errors::Error;
use crate::model::{
    ActivityKind, Activity, Actor, ArticleDoc, Notification, NotificationKind, UndoTarget,
};
use crate::render::{render, render_activity};
use crate::signatures::{
    digest_matches, http_signature_ok, payload_sig_ok, spec_digest_value, verify_http_signature,
    verify_payload_signature, Signature,
};
use crate::signing::{find_header, first_header_value, Header};
use crate::store::Store;
use crate::uris::{spec_uri_domain, uri_domain};
use vstd::prelude::*;

verus! {

/// Where a dispatched activity ended up.
pub enum Outcome {
    /// Effects written, ledger entry recorded.
    Applied,
    /// The activity URI was already applied; nothing changed.
    Duplicate,
    /// The activity was dropped; nothing changed. The error is kept for
    /// logging only: the external reply stays uniform.
    Rejected(Error),
}

/// The result of one dispatch: the outcome and the events for the
/// notification collaborator.
pub struct DispatchResult {
    pub outcome: Outcome,
    pub notifications: Vec<Notification>,
}

/// Whether the store knows a post with this URI under this id.
pub open spec fn post_uri_id(s: Store, uri: Seq<char>, id: u64) -> bool {
    exists|i: int|
        0 <= i < s.posts@.len() && (#[trigger] s.posts@[i]).uri@ == uri && s.posts@[i].id == id
}

/// Whether the store attributes the post to anyone at all.
pub open spec fn post_has_an_author(s: Store, post_id: u64) -> bool {
    exists|a: u64| #[trigger] s.has_post_author(post_id, a)
}

/// An author the store attributes a post to: the first attribution row,
/// or nothing exactly when the post has no author at all.
pub(crate) fn find_an_author(s: &Store, post_id: u64) -> (r: Option<u64>)
    ensures
        match r {
            Some(a) => s.has_post_author(post_id, a),
            None => forall|a: u64| !s.has_post_author(post_id, a),
        },
{
    let mut i: usize = 0;
    while i < s.post_authors.len()
        invariant
            i <= s.post_authors@.len(),
            forall|j: int| 0 <= j < i ==> (#[trigger] s.post_authors@[j]).post_id != post_id,
        decreases s.post_authors@.len() - i,
    {
        if s.post_authors[i].post_id == post_id {
            proof {
                assert((s.post_authors@[i as int]).post_id == post_id);
            }
            return Some(s.post_authors[i].author_id);
        }
        i += 1;
    }
    proof {
        assert forall|a: u64| !s.has_post_author(post_id, a) by {
            if s.has_post_author(post_id, a) {
                let j = choose|j: int|
                    0 <= j < s.post_authors@.len() && (#[trigger] s.post_authors@[j]).post_id
                        == post_id && s.post_authors@[j].author_id == a;
            }
        }
    }
    None
}

/// Apply an inbound follow: create the relation if absent and notify the
/// target. The target must be known to this node.
fn handle_follow(s: &mut Store, sender_id: u64, target_uri: &String) -> (r: Result<
    Vec<Notification>,
    Error,
>)
    requires
        old(s).wf(),
        old(s).next_id < u64::MAX - 2,
    ensures
        final(s).wf(),
        old(s).next_id <= final(s).next_id,
        final(s).instances == old(s).instances,
        final(s).actors == old(s).actors,
        final(s).posts == old(s).posts,
        final(s).post_authors == old(s).post_authors,
        final(s).likes == old(s).likes,
        final(s).reshares == old(s).reshares,
        final(s).inbox_records == old(s).inbox_records,
        final(s).next_id <= old(s).next_id + 1,
        match r {
            Ok(notes) => {
                &&& old(s).has_actor_uri(target_uri@)
                &&& exists|i: int|
                    0 <= i < old(s).actors@.len() && (#[trigger] old(s).actors@[i]).uri@
                        == target_uri@ && forall|a: u64, b: u64|
                        #[trigger] final(s).has_follow(a, b) == (old(s).has_follow(a, b) || (a == sender_id
                            && b == old(s).actors@[i].id))
                &&& forall|i: int|
                    0 <= i < old(s).actors@.len() && (#[trigger] old(s).actors@[i]).uri@
                        == target_uri@ ==> if old(s).has_follow(sender_id, old(s).actors@[i].id) {
                        notes@.len() == 0
                    } else {
                        notes@ == seq![
                            (Notification {
                                kind: NotificationKind::Follow,
                                actor_id: sender_id,
                                target_actor_id: old(s).actors@[i].id,
                                post_id: None,
                            }),
                        ]
                    }
            },
            Err(e) => {
                &&& e == Error::NotFound
                &&& !old(s).has_actor_uri(target_uri@)
                &&& *final(s) == *old(s)
            },
        },
{
    let target_idx = match s.find_actor_by_uri(target_uri) {
        Some(i) => i,
        None => {
            return Err(Error::NotFound);
        },
    };
    let target_id = s.actors[target_idx].id;
    proof {
        assert((old(s).actors@[target_idx as int]).uri@ == target_uri@);
    }
    let mut notifications: Vec<Notification> = Vec::new();
    if s.find_follow(sender_id, target_id).is_none() {
        s.insert_follow(sender_id, target_id, String::new());
        notifications.push(
            Notification {
                kind: NotificationKind::Follow,
                actor_id: sender_id,
                target_actor_id: target_id,
                post_id: None,
            },
        );
    }
    proof {
        let i = target_idx as int;
        assert(forall|a: u64, b: u64| #[trigger]
            s.has_follow(a, b) == (old(s).has_follow(a, b) || (a == sender_id && b == old(
                s,
            ).actors@[i].id)));
        assert forall|i2: int|
            0 <= i2 < old(s).actors@.len() && (#[trigger] old(s).actors@[i2]).uri@ == target_uri@
                implies i2 == target_idx as int by {
            if i2 < target_idx as int {
                assert(crate::store::distinct_actors(
                    old(s).actors@[i2],
                    old(s).actors@[target_idx as int],
                ));
            }
            if (target_idx as int) < i2 {
                assert(crate::store::distinct_actors(
                    old(s).actors@[target_idx as int],
                    old(s).actors@[i2],
                ));
            }
        }
        if !old(s).has_follow(sender_id, target_id) {
            assert(notifications@ =~= seq![
                (Notification {
                    kind: NotificationKind::Follow,
                    actor_id: sender_id,
                    target_actor_id: target_id,
                    post_id: None,
                }),
            ]);
        }
    }
    Ok(notifications)
}

/// Apply an inbound like: an idempotent toggle that records the like if it
/// is new and notifies an author of the post.
fn handle_like(s: &mut Store, sender_id: u64, object_uri: &String) -> (r: Result<
    Vec<Notification>,
    Error,
>)
    requires
        old(s).wf(),
        old(s).next_id < u64::MAX - 2,
    ensures
        final(s).wf(),
        old(s).next_id <= final(s).next_id,
        final(s).instances == old(s).instances,
        final(s).actors == old(s).actors,
        final(s).posts == old(s).posts,
        final(s).post_authors == old(s).post_authors,
        final(s).follows == old(s).follows,
        final(s).reshares == old(s).reshares,
        final(s).inbox_records == old(s).inbox_records,
        final(s).next_id <= old(s).next_id + 1,
        match r {
            Ok(notes) => {
                &&& old(s).has_post_uri(object_uri@)
                &&& exists|pid: u64|
                    #[trigger] post_uri_id(*old(s), object_uri@, pid) && forall|a: u64, p: u64|
                        #[trigger] final(s).has_like(a, p) == (old(s).has_like(a, p) || (a == sender_id
                            && p == pid))
                &&& forall|pid: u64|
                    #[trigger] post_uri_id(*old(s), object_uri@, pid) ==> if old(s).has_like(
                        sender_id,
                        pid,
                    ) || !post_has_an_author(*old(s), pid) {
                        notes@.len() == 0
                    } else {
                        notes@.len() == 1 && notes@[0].kind == NotificationKind::Like
                            && notes@[0].actor_id == sender_id && old(s).has_post_author(
                            pid,
                            notes@[0].target_actor_id,
                        ) && notes@[0].post_id == Some(pid)
                    }
            },
            Err(e) => {
                &&& e == Error::NotFound
                &&& !old(s).has_post_uri(object_uri@)
                &&& *final(s) == *old(s)
            },
        },
{
    let post_idx = match s.find_post_by_uri(object_uri) {
        Some(i) => i,
        None => {
            return Err(Error::NotFound);
        },
    };
    let post_id = s.posts[post_idx].id;
    proof {
        assert((old(s).posts@[post_idx as int]).uri@ == object_uri@);
        assert(post_uri_id(*old(s), object_uri@, post_id));
    }
    proof {
        assert forall|pid: u64| #[trigger]
            post_uri_id(*old(s), object_uri@, pid) implies pid == post_id by {
            let w = choose|w: int|
                0 <= w < old(s).posts@.len() && (#[trigger] old(s).posts@[w]).uri@ == object_uri@
                    && old(s).posts@[w].id == pid;
            if w < post_idx as int {
                assert(crate::store::distinct_posts(
                    old(s).posts@[w],
                    old(s).posts@[post_idx as int],
                ));
            }
            if (post_idx as int) < w {
                assert(crate::store::distinct_posts(
                    old(s).posts@[post_idx as int],
                    old(s).posts@[w],
                ));
            }
        }
    }
    let mut notifications: Vec<Notification> = Vec::new();
    if s.find_like(sender_id, post_id).is_none() {
        s.insert_like(sender_id, post_id);
        proof {
            crate::store::lemma_same_relations_same_membership(*old(s), *s);
        }
        if let Some(author) = find_an_author(s, post_id) {
            notifications.push(
                Notification {
                    kind: NotificationKind::Like,
                    actor_id: sender_id,
                    target_actor_id: author,
                    post_id: Some(post_id),
                },
            );
            proof {
                assert(old(s).has_post_author(post_id, author));
                assert(post_has_an_author(*old(s), post_id));
            }
        } else {
            proof {
                assert forall|a: u64| !old(s).has_post_author(post_id, a) by {
                    assert(!s.has_post_author(post_id, a));
                }
                assert(!post_has_an_author(*old(s), post_id));
            }
        }
    }
    Ok(notifications)
}

/// Apply an inbound reshare: the same idempotent toggle as a like.
fn handle_announce(s: &mut Store, sender_id: u64, object_uri: &String) -> (r: Result<
    Vec<Notification>,
    Error,
>)
    requires
        old(s).wf(),
        old(s).next_id < u64::MAX - 2,
    ensures
        final(s).wf(),
        old(s).next_id <= final(s).next_id,
        final(s).instances == old(s).instances,
        final(s).actors == old(s).actors,
        final(s).posts == old(s).posts,
        final(s).post_authors == old(s).post_authors,
        final(s).follows == old(s).follows,
        final(s).likes == old(s).likes,
        final(s).inbox_records == old(s).inbox_records,
        final(s).next_id <= old(s).next_id + 1,
        match r {
            Ok(notes) => {
                &&& old(s).has_post_uri(object_uri@)
                &&& exists|pid: u64|
                    #[trigger] post_uri_id(*old(s), object_uri@, pid) && forall|a: u64, p: u64|
                        #[trigger] final(s).has_reshare(a, p) == (old(s).has_reshare(a, p) || (a
                            == sender_id && p == pid))
                &&& forall|pid: u64|
                    #[trigger] post_uri_id(*old(s), object_uri@, pid) ==> if old(s).has_reshare(
                        sender_id,
                        pid,
                    ) || !post_has_an_author(*old(s), pid) {
                        notes@.len() == 0
                    } else {
                        notes@.len() == 1 && notes@[0].kind == NotificationKind::Reshare
                            && notes@[0].actor_id == sender_id && old(s).has_post_author(
                            pid,
                            notes@[0].target_actor_id,
                        ) && notes@[0].post_id == Some(pid)
                    }
            },
            Err(e) => {
                &&& e == Error::NotFound
                &&& !old(s).has_post_uri(object_uri@)
                &&& *final(s) == *old(s)
            },
        },
{
    let post_idx = match s.find_post_by_uri(object_uri) {
        Some(i) => i,
        None => {
            return Err(Error::NotFound);
        },
    };
    let post_id = s.posts[post_idx].id;
    proof {
        assert((old(s).posts@[post_idx as int]).uri@ == object_uri@);
        assert(post_uri_id(*old(s), object_uri@, post_id));
    }
    proof {
        assert forall|pid: u64| #[trigger]
            post_uri_id(*old(s), object_uri@, pid) implies pid == post_id by {
            let w = choose|w: int|
                0 <= w < old(s).posts@.len() && (#[trigger] old(s).posts@[w]).uri@ == object_uri@
                    && old(s).posts@[w].id == pid;
            if w < post_idx as int {
                assert(crate::store::distinct_posts(
                    old(s).posts@[w],
                    old(s).posts@[post_idx as int],
                ));
            }
            if (post_idx as int) < w {
                assert(crate::store::distinct_posts(
                    old(s).posts@[post_idx as int],
                    old(s).posts@[w],
                ));
            }
        }
    }
    let mut notifications: Vec<Notification> = Vec::new();
    if s.find_reshare(sender_id, post_id).is_none() {
        s.insert_reshare(sender_id, post_id);
        proof {
            crate::store::lemma_same_relations_same_membership(*old(s), *s);
        }
        if let Some(author) = find_an_author(s, post_id) {
            notifications.push(
                Notification {
                    kind: NotificationKind::Reshare,
                    actor_id: sender_id,
                    target_actor_id: author,
                    post_id: Some(post_id),
                },
            );
            proof {
                assert(old(s).has_post_author(post_id, author));
                assert(post_has_an_author(*old(s), post_id));
            }
        } else {
            proof {
                assert forall|a: u64| !old(s).has_post_author(post_id, a) by {
                    assert(!s.has_post_author(post_id, a));
                }
                assert(!post_has_an_author(*old(s), post_id));
            }
        }
    }
    Ok(notifications)
}

/// Reverse a prior effect identified by its actor and object pair. An undo
/// whose prior effect was never recorded is a deliberate no-op, tolerating
/// replayed and out-of-order deliveries.
fn handle_undo(s: &mut Store, sender_id: u64, undone: &UndoTarget)
    requires
        old(s).wf(),
    ensures
        final(s).wf(),
        final(s).next_id == old(s).next_id,
        final(s).instances == old(s).instances,
        final(s).actors == old(s).actors,
        final(s).posts == old(s).posts,
        final(s).post_authors == old(s).post_authors,
        final(s).inbox_records == old(s).inbox_records,
        match *undone {
            UndoTarget::Like { object_uri } => {
                &&& final(s).follows == old(s).follows
                &&& final(s).reshares == old(s).reshares
                &&& forall|pid: u64|
                    #[trigger] post_uri_id(*old(s), object_uri@, pid) ==> !final(s).has_like(
                        sender_id,
                        pid,
                    )
                &&& forall|a: u64, p: u64| #[trigger] final(s).has_like(a, p) ==> old(s).has_like(a, p)
                &&& forall|a: u64, p: u64|
                    old(s).has_like(a, p) && !(a == sender_id && post_uri_id(
                        *old(s),
                        object_uri@,
                        p,
                    )) ==> #[trigger] final(s).has_like(a, p)
            },
            UndoTarget::Announce { object_uri } => {
                &&& final(s).follows == old(s).follows
                &&& final(s).likes == old(s).likes
                &&& forall|pid: u64|
                    #[trigger] post_uri_id(*old(s), object_uri@, pid) ==> !final(s).has_reshare(
                        sender_id,
                        pid,
                    )
                &&& forall|a: u64, p: u64| #[trigger] final(s).has_reshare(a, p) ==> old(s).has_reshare(a, p)
                &&& forall|a: u64, p: u64|
                    old(s).has_reshare(a, p) && !(a == sender_id && post_uri_id(
                        *old(s),
                        object_uri@,
                        p,
                    )) ==> #[trigger] final(s).has_reshare(a, p)
            },
            UndoTarget::Follow { target_uri } => {
                &&& final(s).likes == old(s).likes
                &&& final(s).reshares == old(s).reshares
                &&& forall|i: int|
                    0 <= i < old(s).actors@.len() && (#[trigger] old(s).actors@[i]).uri@
                        == target_uri@ ==> !final(s).has_follow(sender_id, old(s).actors@[i].id)
                &&& forall|a: u64, b: u64| #[trigger] final(s).has_follow(a, b) ==> old(s).has_follow(a, b)
            },
        },
{
    match undone {
        UndoTarget::Like { object_uri } => {
            let post_idx = match s.find_post_by_uri(object_uri) {
                Some(i) => i,
                None => {
                    proof {
                        assert forall|pid: u64| #[trigger]
                            post_uri_id(*old(s), object_uri@, pid) implies !s.has_like(
                            sender_id,
                            pid,
                        ) by {
                            let w = choose|i: int|
                                0 <= i < old(s).posts@.len() && (#[trigger] old(s).posts@[i]).uri@
                                    == object_uri@ && old(s).posts@[i].id == pid;
                        }
                    }
                    return ;
                },
            };
            let post_id = s.posts[post_idx].id;
            match s.find_like(sender_id, post_id) {
                Some(like_idx) => {
                    s.remove_like_at(like_idx);
                },
                None => {},
            }
            proof {
                assert forall|pid: u64| #[trigger]
                    post_uri_id(*old(s), object_uri@, pid) implies !s.has_like(sender_id, pid) by {
                    let w = choose|i: int|
                        0 <= i < old(s).posts@.len() && (#[trigger] old(s).posts@[i]).uri@
                            == object_uri@ && old(s).posts@[i].id == pid;
                    assert(old(s).posts@[w].id == old(s).posts@[post_idx as int].id ==> w
                        == post_idx as int);
                    assert(pid == post_id);
                }
            }
        },
        UndoTarget::Announce { object_uri } => {
            let post_idx = match s.find_post_by_uri(object_uri) {
                Some(i) => i,
                None => {
                    proof {
                        assert forall|pid: u64| #[trigger]
                            post_uri_id(*old(s), object_uri@, pid) implies !s.has_reshare(
                            sender_id,
                            pid,
                        ) by {
                            let w = choose|i: int|
                                0 <= i < old(s).posts@.len() && (#[trigger] old(s).posts@[i]).uri@
                                    == object_uri@ && old(s).posts@[i].id == pid;
                        }
                    }
                    return ;
                },
            };
            let post_id = s.posts[post_idx].id;
            match s.find_reshare(sender_id, post_id) {
                Some(idx) => {
                    s.remove_reshare_at(idx);
                },
                None => {},
            }
            proof {
                assert forall|pid: u64| #[trigger]
                    post_uri_id(*old(s), object_uri@, pid) implies !s.has_reshare(
                    sender_id,
                    pid,
                ) by {
                    let w = choose|i: int|
                        0 <= i < old(s).posts@.len() && (#[trigger] old(s).posts@[i]).uri@
                            == object_uri@ && old(s).posts@[i].id == pid;
                    assert(old(s).posts@[w].id == old(s).posts@[post_idx as int].id ==> w
                        == post_idx as int);
                    assert(pid == post_id);
                }
            }
        },
        UndoTarget::Follow { target_uri } => {
            let target_idx = match s.find_actor_by_uri(target_uri) {
                Some(i) => i,
                None => {
                    return ;
                },
            };
            let target_id = s.actors[target_idx].id;
            match s.find_follow(sender_id, target_id) {
                Some(idx) => {
                    s.remove_follow_at(idx);
                },
                None => {},
            }
            proof {
                assert forall|i: int|
                    0 <= i < old(s).actors@.len() && (#[trigger] old(s).actors@[i]).uri@
                        == target_uri@ implies !s.has_follow(sender_id, old(s).actors@[i].id) by {
                    assert(old(s).actors@[target_idx as int].uri@ == target_uri@);
                    assert(i == target_idx as int);
                }
            }
        },
    }
}

/// Persist the embedded object of a create, attributed to the sender. A
/// URI the node already holds is left untouched.
fn handle_create(s: &mut Store, sender_id: u64, object: &ArticleDoc) -> (r: Vec<Notification>)
    requires
        old(s).wf(),
        old(s).has_actor_id(sender_id),
        old(s).next_id < u64::MAX - 2,
    ensures
        final(s).wf(),
        old(s).next_id <= final(s).next_id,
        final(s).instances == old(s).instances,
        final(s).actors == old(s).actors,
        final(s).follows == old(s).follows,
        final(s).likes == old(s).likes,
        final(s).reshares == old(s).reshares,
        final(s).inbox_records == old(s).inbox_records,
        final(s).next_id <= old(s).next_id + 2,
        r@.len() == 0,
        final(s).has_post_uri(object.uri@),
        old(s).has_post_uri(object.uri@) ==> *final(s) == *old(s),
        !old(s).has_post_uri(object.uri@) ==> {
            &&& final(s).posts@ == old(s).posts@.push(final(s).posts@.last())
            &&& final(s).posts@.last().uri@ == object.uri@
            &&& final(s).posts@.last().title@ == object.title@
            &&& final(s).posts@.last().content@ == object.content@
            &&& final(s).posts@.last().published == true
            &&& final(s).posts@.last().tombstoned == false
            &&& final(s).has_post_author(final(s).posts@.last().id, sender_id)
        },
{
    if s.find_post_by_uri(&object.uri).is_some() {
        return Vec::new();
    }
    s.insert_post(
        object.uri.clone(),
        object.title.clone(),
        object.content.clone(),
        true,
        sender_id,
    );
    Vec::new()
}

/// Overwrite the mutable fields of an object the node already holds.
/// Updates are not accepted for objects the node never ingested.
fn handle_update(s: &mut Store, object: &ArticleDoc) -> (r: Result<(), Error>)
    requires
        old(s).wf(),
    ensures
        final(s).wf(),
        final(s).next_id == old(s).next_id,
        final(s).instances == old(s).instances,
        final(s).actors == old(s).actors,
        final(s).post_authors == old(s).post_authors,
        final(s).follows == old(s).follows,
        final(s).likes == old(s).likes,
        final(s).reshares == old(s).reshares,
        final(s).inbox_records == old(s).inbox_records,
        match r {
            Ok(_) => {
                &&& old(s).has_post_uri(object.uri@)
                &&& exists|i: int|
                    0 <= i < old(s).posts@.len() && (#[trigger] old(s).posts@[i]).uri@ == object.uri@
                        && final(s).posts@ == old(s).posts@.update(i, final(s).posts@[i]) && final(s).posts@[i].title@
                        == object.title@ && final(s).posts@[i].content@ == object.content@
                        && final(s).posts@[i].id == old(s).posts@[i].id && final(s).posts@[i].uri == old(
                        s,
                    ).posts@[i].uri && final(s).posts@[i].published == old(s).posts@[i].published
                        && final(s).posts@[i].tombstoned == old(s).posts@[i].tombstoned
            },
            Err(e) => {
                &&& e == Error::NotFound
                &&& !old(s).has_post_uri(object.uri@)
                &&& *final(s) == *old(s)
            },
        },
{
    let post_idx = match s.find_post_by_uri(&object.uri) {
        Some(i) => i,
        None => {
            return Err(Error::NotFound);
        },
    };
    proof {
        assert((old(s).posts@[post_idx as int]).uri@ == object.uri@);
    }
    let published = s.posts[post_idx].published;
    let tombstoned = s.posts[post_idx].tombstoned;
    s.replace_post_fields(
        post_idx,
        object.title.clone(),
        object.content.clone(),
        published,
        tombstoned,
    );
    Ok(())
}

/// Tombstone the referenced object: a post the sender authored, or the
/// sender's own profile. Idempotent when already tombstoned.
fn handle_delete(s: &mut Store, sender_id: u64, sender_uri: &String, object_uri: &String) -> (r:
    Result<(), Error>)
    requires
        old(s).wf(),
    ensures
        final(s).wf(),
        final(s).next_id == old(s).next_id,
        final(s).instances == old(s).instances,
        final(s).post_authors == old(s).post_authors,
        final(s).follows == old(s).follows,
        final(s).likes == old(s).likes,
        final(s).reshares == old(s).reshares,
        final(s).inbox_records == old(s).inbox_records,
        match r {
            Ok(_) => {
                ||| exists|i: int|
                    0 <= i < old(s).posts@.len() && (#[trigger] old(s).posts@[i]).uri@
                        == object_uri@ && old(s).has_post_author(old(s).posts@[i].id, sender_id)
                        && final(s).actors == old(s).actors && final(s).posts@ == old(
                        s,
                    ).posts@.update(i, final(s).posts@[i]) && final(s).posts@[i].tombstoned == true
                        && final(s).posts@[i].id == old(s).posts@[i].id && final(s).posts@[i].uri
                        == old(s).posts@[i].uri
                ||| (sender_uri@ == object_uri@ && final(s).posts == old(s).posts && exists|i: int|
                    0 <= i < old(s).actors@.len() && (#[trigger] old(s).actors@[i]).uri@
                        == object_uri@ && final(s).actors@ == old(s).actors@.update(
                        i,
                        final(s).actors@[i],
                    ) && final(s).actors@[i].tombstoned == true && final(s).actors@[i].id == old(
                        s,
                    ).actors@[i].id && final(s).actors@[i].uri == old(s).actors@[i].uri)
            },
            Err(e) => e == Error::NotFound && *final(s) == *old(s) && !delete_applicable(
                *old(s),
                sender_id,
                sender_uri@,
                object_uri@,
            ),
        },
{
    if let Some(post_idx) = s.find_post_by_uri(object_uri) {
        let post_id = s.posts[post_idx].id;
        if s.is_author(post_id, sender_id) {
            proof {
                assert((old(s).posts@[post_idx as int]).uri@ == object_uri@);
            }
            let title = s.posts[post_idx].title.clone();
            let content = s.posts[post_idx].content.clone();
            let published = s.posts[post_idx].published;
            s.replace_post_fields(post_idx, title, content, published, true);
            return Ok(());
        }
    }
    if sender_uri.eq(object_uri) {
        if let Some(actor_idx) = s.find_actor_by_uri(object_uri) {
            proof {
                assert((old(s).actors@[actor_idx as int]).uri@ == object_uri@);
            }
            s.tombstone_actor_at(actor_idx);
            return Ok(());
        }
    }
    proof {
        assert forall|i: int|
            0 <= i < old(s).posts@.len() && (#[trigger] old(s).posts@[i]).uri@ == object_uri@
                implies !old(s).has_post_author(old(s).posts@[i].id, sender_id) by {
        }
    }
    Err(Error::NotFound)
}

/// Whether the store holds an object a delete from this sender may
/// tombstone: a post the sender authored, or the sender's own profile.
pub open spec fn delete_applicable(
    pre: Store,
    sender_id: u64,
    sender_uri: Seq<char>,
    object_uri: Seq<char>,
) -> bool {
    ||| exists|i: int|
        0 <= i < pre.posts@.len() && (#[trigger] pre.posts@[i]).uri@ == object_uri
            && pre.has_post_author(pre.posts@[i].id, sender_id)
    ||| (sender_uri == object_uri && pre.has_actor_uri(object_uri))
}

/// Exactly when a dispatch rejects, and with which error.
pub open spec fn dispatch_rejection(pre: Store, act: Activity, sender_id: u64, e: Error) -> bool {
    match act.kind {
        ActivityKind::Follow { target_uri } => e == Error::NotFound && !pre.has_actor_uri(
            target_uri@,
        ),
        ActivityKind::Like { object_uri } => e == Error::NotFound && !pre.has_post_uri(object_uri@),
        ActivityKind::Announce { object_uri } => e == Error::NotFound && !pre.has_post_uri(
            object_uri@,
        ),
        ActivityKind::Update { object } => e == Error::NotFound && !pre.has_post_uri(object.uri@),
        ActivityKind::Delete { object_uri } => e == Error::NotFound && !delete_applicable(
            pre,
            sender_id,
            act.actor_uri@,
            object_uri@,
        ),
        ActivityKind::Create { .. } => false,
        ActivityKind::Undo { .. } => false,
        ActivityKind::Accept { .. } => false,
    }
}

/// What an applied activity did to the store, variant by variant. The
/// dedup ledger entry is stated separately.
pub open spec fn dispatch_effect(pre: Store, post: Store, act: Activity, sender_id: u64) -> bool {
    match act.kind {
        ActivityKind::Follow { target_uri } => {
            &&& post.actors == pre.actors
            &&& post.posts == pre.posts
            &&& post.post_authors == pre.post_authors
            &&& post.likes == pre.likes
            &&& post.reshares == pre.reshares
            &&& pre.has_actor_uri(target_uri@)
            &&& exists|i: int|
                0 <= i < pre.actors@.len() && (#[trigger] pre.actors@[i]).uri@ == target_uri@
                    && forall|a: u64, b: u64|
                    #[trigger] post.has_follow(a, b) == (pre.has_follow(a, b) || (a == sender_id
                        && b == pre.actors@[i].id))
        },
        ActivityKind::Like { object_uri } => {
            &&& post.actors == pre.actors
            &&& post.posts == pre.posts
            &&& post.post_authors == pre.post_authors
            &&& post.follows == pre.follows
            &&& post.reshares == pre.reshares
            &&& pre.has_post_uri(object_uri@)
            &&& exists|pid: u64|
                #[trigger] post_uri_id(pre, object_uri@, pid) && forall|a: u64, p: u64|
                    #[trigger] post.has_like(a, p) == (pre.has_like(a, p) || (a == sender_id && p
                        == pid))
        },
        ActivityKind::Announce { object_uri } => {
            &&& post.actors == pre.actors
            &&& post.posts == pre.posts
            &&& post.post_authors == pre.post_authors
            &&& post.follows == pre.follows
            &&& post.likes == pre.likes
            &&& pre.has_post_uri(object_uri@)
            &&& exists|pid: u64|
                #[trigger] post_uri_id(pre, object_uri@, pid) && forall|a: u64, p: u64|
                    #[trigger] post.has_reshare(a, p) == (pre.has_reshare(a, p) || (a == sender_id
                        && p == pid))
        },
        ActivityKind::Undo { undone } => {
            &&& post.actors == pre.actors
            &&& post.posts == pre.posts
            &&& post.post_authors == pre.post_authors
            &&& match undone {
                UndoTarget::Like { object_uri } => {
                    &&& post.follows == pre.follows
                    &&& post.reshares == pre.reshares
                    &&& forall|pid: u64|
                        #[trigger] post_uri_id(pre, object_uri@, pid) ==> !post.has_like(
                            sender_id,
                            pid,
                        )
                    &&& forall|a: u64, p: u64| #[trigger] post.has_like(a, p) ==> pre.has_like(a, p)
                    &&& forall|a: u64, p: u64|
                        pre.has_like(a, p) && !(a == sender_id && post_uri_id(pre, object_uri@, p))
                            ==> #[trigger] post.has_like(a, p)
                },
                UndoTarget::Announce { object_uri } => {
                    &&& post.follows == pre.follows
                    &&& post.likes == pre.likes
                    &&& forall|pid: u64|
                        #[trigger] post_uri_id(pre, object_uri@, pid) ==> !post.has_reshare(
                            sender_id,
                            pid,
                        )
                    &&& forall|a: u64, p: u64|
                        #[trigger] post.has_reshare(a, p) ==> pre.has_reshare(a, p)
                    &&& forall|a: u64, p: u64|
                        pre.has_reshare(a, p) && !(a == sender_id && post_uri_id(
                            pre,
                            object_uri@,
                            p,
                        )) ==> #[trigger] post.has_reshare(a, p)
                },
                UndoTarget::Follow { target_uri } => {
                    &&& post.likes == pre.likes
                    &&& post.reshares == pre.reshares
                    &&& forall|i: int|
                        0 <= i < pre.actors@.len() && (#[trigger] pre.actors@[i]).uri@ == target_uri@
                            ==> !post.has_follow(sender_id, pre.actors@[i].id)
                    &&& forall|a: u64, b: u64|
                        #[trigger] post.has_follow(a, b) ==> pre.has_follow(a, b)
                },
            }
        },
        ActivityKind::Create { object } => {
            &&& post.actors == pre.actors
            &&& post.follows == pre.follows
            &&& post.likes == pre.likes
            &&& post.reshares == pre.reshares
            &&& post.has_post_uri(object.uri@)
            &&& pre.has_post_uri(object.uri@) ==> post.posts == pre.posts && post.post_authors
                == pre.post_authors
            &&& !pre.has_post_uri(object.uri@) ==> {
                &&& post.posts@ == pre.posts@.push(post.posts@.last())
                &&& post.posts@.last().uri@ == object.uri@
                &&& post.posts@.last().title@ == object.title@
                &&& post.posts@.last().content@ == object.content@
                &&& post.posts@.last().published == true
                &&& post.posts@.last().tombstoned == false
                &&& post.has_post_author(post.posts@.last().id, sender_id)
            }
        },
        ActivityKind::Update { object } => {
            &&& post.actors == pre.actors
            &&& post.post_authors == pre.post_authors
            &&& post.follows == pre.follows
            &&& post.likes == pre.likes
            &&& post.reshares == pre.reshares
            &&& pre.has_post_uri(object.uri@)
            &&& exists|i: int|
                0 <= i < pre.posts@.len() && (#[trigger] pre.posts@[i]).uri@ == object.uri@
                    && post.posts@ == pre.posts@.update(i, post.posts@[i]) && post.posts@[i].title@
                    == object.title@ && post.posts@[i].content@ == object.content@
                    && post.posts@[i].id == pre.posts@[i].id && post.posts@[i].uri
                    == pre.posts@[i].uri && post.posts@[i].published == pre.posts@[i].published
                    && post.posts@[i].tombstoned == pre.posts@[i].tombstoned
        },
        ActivityKind::Delete { object_uri } => {
            &&& post.post_authors == pre.post_authors
            &&& post.follows == pre.follows
            &&& post.likes == pre.likes
            &&& post.reshares == pre.reshares
            &&& {
                ||| exists|i: int|
                    0 <= i < pre.posts@.len() && (#[trigger] pre.posts@[i]).uri@ == object_uri@
                        && pre.has_post_author(pre.posts@[i].id, sender_id) && post.actors
                        == pre.actors && post.posts@ == pre.posts@.update(i, post.posts@[i])
                        && post.posts@[i].tombstoned == true && post.posts@[i].id
                        == pre.posts@[i].id && post.posts@[i].uri == pre.posts@[i].uri
                ||| (act.actor_uri@ == object_uri@ && post.posts == pre.posts && exists|i: int|
                    0 <= i < pre.actors@.len() && (#[trigger] pre.actors@[i]).uri@ == object_uri@
                        && post.actors@ == pre.actors@.update(i, post.actors@[i])
                        && post.actors@[i].tombstoned == true && post.actors@[i].id
                        == pre.actors@[i].id && post.actors@[i].uri == pre.actors@[i].uri)
            }
        },
        ActivityKind::Accept { .. } => {
            &&& post.actors == pre.actors
            &&& post.posts == pre.posts
            &&& post.post_authors == pre.post_authors
            &&& post.follows == pre.follows
            &&& post.likes == pre.likes
            &&& post.reshares == pre.reshares
        },
    }
}

/// The notification events one applied activity emits: a fresh follow
/// notifies the target, a fresh like or reshare notifies an author of the
/// post; everything else, and every no-op re-application, emits none.
pub open spec fn dispatch_notifications(
    pre: Store,
    act: Activity,
    sender_id: u64,
    notes: Seq<Notification>,
) -> bool {
    match act.kind {
        ActivityKind::Follow { target_uri } => forall|i: int|
            0 <= i < pre.actors@.len() && (#[trigger] pre.actors@[i]).uri@ == target_uri@
                ==> if pre.has_follow(sender_id, pre.actors@[i].id) {
                notes.len() == 0
            } else {
                notes == seq![
                    (Notification {
                        kind: NotificationKind::Follow,
                        actor_id: sender_id,
                        target_actor_id: pre.actors@[i].id,
                        post_id: None,
                    }),
                ]
            },
        ActivityKind::Like { object_uri } => forall|pid: u64|
            #[trigger] post_uri_id(pre, object_uri@, pid) ==> if pre.has_like(sender_id, pid)
                || !post_has_an_author(pre, pid) {
                notes.len() == 0
            } else {
                notes.len() == 1 && notes[0].kind == NotificationKind::Like && notes[0].actor_id
                    == sender_id && pre.has_post_author(pid, notes[0].target_actor_id)
                    && notes[0].post_id == Some(pid)
            },
        ActivityKind::Announce { object_uri } => forall|pid: u64|
            #[trigger] post_uri_id(pre, object_uri@, pid) ==> if pre.has_reshare(sender_id, pid)
                || !post_has_an_author(pre, pid) {
                notes.len() == 0
            } else {
                notes.len() == 1 && notes[0].kind == NotificationKind::Reshare && notes[0].actor_id
                    == sender_id && pre.has_post_author(pid, notes[0].target_actor_id)
                    && notes[0].post_id == Some(pid)
            },
        ActivityKind::Create { .. } => notes.len() == 0,
        ActivityKind::Update { .. } => notes.len() == 0,
        ActivityKind::Delete { .. } => notes.len() == 0,
        ActivityKind::Undo { .. } => notes.len() == 0,
        ActivityKind::Accept { .. } => notes.len() == 0,
    }
}

/// Dispatch one verified activity: consult the dedup ledger, apply the
/// variant's handler, and record the ledger entry. Delivering the same
/// activity URI twice leaves the store untouched the second time; a
/// rejected activity leaves it untouched altogether.
pub fn dispatch(s: &mut Store, act: &Activity, actor_idx: usize) -> (r: DispatchResult)
    requires
        old(s).wf(),
        actor_idx < old(s).actors@.len(),
        old(s).actors@[actor_idx as int].uri@ == act.actor_uri@,
        old(s).next_id < u64::MAX - 2,
    ensures
        final(s).wf(),
        old(s).next_id <= final(s).next_id,
        final(s).next_id <= old(s).next_id + 2,
        final(s).instances == old(s).instances,
        ({
            let sender_id = old(s).actors@[actor_idx as int].id;
            match r.outcome {
                Outcome::Duplicate => *final(s) == *old(s) && old(s).has_record(act.id@)
                    && r.notifications@.len() == 0,
                Outcome::Rejected(e) => *final(s) == *old(s) && !old(s).has_record(act.id@)
                    && dispatch_rejection(*old(s), *act, sender_id, e) && r.notifications@.len()
                    == 0,
                Outcome::Applied => !old(s).has_record(act.id@) && (forall|u: Seq<char>|
                    #[trigger] final(s).has_record(u) == (old(s).has_record(u) || u == act.id@))
                    && dispatch_effect(*old(s), *final(s), *act, sender_id)
                    && dispatch_notifications(*old(s), *act, sender_id, r.notifications@),
            }
        }),
{
    let sender_id = s.actors[actor_idx].id;
    if s.record_exists(&act.id) {
        return DispatchResult { outcome: Outcome::Duplicate, notifications: Vec::new() };
    }
    let applied: Result<Vec<Notification>, Error> = match &act.kind {
        ActivityKind::Follow { target_uri } => handle_follow(s, sender_id, target_uri),
        ActivityKind::Like { object_uri } => handle_like(s, sender_id, object_uri),
        ActivityKind::Announce { object_uri } => handle_announce(s, sender_id, object_uri),
        ActivityKind::Undo { undone } => {
            handle_undo(s, sender_id, undone);
            Ok(Vec::new())
        },
        ActivityKind::Create { object } => {
            proof {
                assert(old(s).actors@[actor_idx as int].id == sender_id);
                assert(old(s).has_actor_id(sender_id));
            }
            Ok(handle_create(s, sender_id, object))
        },
        ActivityKind::Update { object } => {
            match handle_update(s, object) {
                Ok(_) => Ok(Vec::new()),
                Err(e) => Err(e),
            }
        },
        ActivityKind::Delete { object_uri } => {
            match handle_delete(s, sender_id, &act.actor_uri, object_uri) {
                Ok(_) => Ok(Vec::new()),
                Err(e) => Err(e),
            }
        },
        ActivityKind::Accept { .. } => Ok(Vec::new()),
    };
    match applied {
        Ok(notifications) => {
            let ghost mid = *s;
            proof {
                crate::store::lemma_same_relations_same_membership(*old(s), mid);
                assert(!mid.has_record(act.id@));
            }
            s.insert_record(act.id.clone());
            proof {
                crate::store::lemma_same_relations_same_membership(mid, *s);
                assert(dispatch_effect(*old(s), *s, *act, sender_id));
            }
            DispatchResult { outcome: Outcome::Applied, notifications }
        },
        Err(e) => DispatchResult { outcome: Outcome::Rejected(e), notifications: Vec::new() },
    }
}

/// One inbound delivery, after the transport layer has read the body and
/// parsed the document: the request headers (with the synthetic request
/// target appended), the raw body the digest covers, the parsed signature
/// header, the activity as a tagged union, and an optional object-level
/// signature carried inside the document.
pub struct IncomingRequest {
    pub headers: Vec<Header>,
    pub body: Vec<u8>,
    pub signature: Signature,
    pub activity: Activity,
    pub embedded_signature: Option<String>,
}

/// The digest gate: a claimed digest header must match the body; a request
/// without one passes.
pub open spec fn digest_gate(req: IncomingRequest) -> bool {
    match first_header_value(req.headers@, "digest"@) {
        Some(v) => v == spec_digest_value(req.body@),
        None => true,
    }
}

/// The dual trust path: the request is trusted if the HTTP-header
/// signature verifies under the actor's current key, or if the embedded
/// object-level signature does, whichever holds.
pub open spec fn request_verified(req: IncomingRequest, a: Actor) -> bool {
    ||| http_signature_ok(
        a.public_key@,
        req.headers@,
        req.signature.headers.deep_view(),
        req.signature.signature@,
    )
    ||| match req.embedded_signature {
        Some(sb) => payload_sig_ok(a.public_key@, render_activity(req.activity), sb@),
        None => false,
    }
}

/// Check the digest gate of a request.
fn check_digest(req: &IncomingRequest) -> (r: bool)
    ensures
        r == digest_gate(*req),
{
    let name = String::from_str("digest");
    match find_header(&req.headers, &name) {
        Some(v) => digest_matches(v, &req.body),
        None => true,
    }
}

/// Check both trust paths of a request against an actor's current key.
fn verify_against(req: &IncomingRequest, a: &Actor) -> (r: bool)
    ensures
        r == request_verified(*req, *a),
{
    if verify_http_signature(&a.public_key, &req.headers, &req.signature) {
        return true;
    }
    match &req.embedded_signature {
        Some(sb) => {
            let payload = render(&req.activity);
            verify_payload_signature(&a.public_key, payload.as_str(), sb)
        },
        None => false,
    }
}

/// What the inbox asks of its driver next.
pub enum InboxStep {
    /// The signer is unknown: perform a signed fetch of this URI and hand
    /// the document to the resolver, then deliver the request again.
    NeedActor { uri: String },
    /// The cached key rejected the signature: refetch the signer
    /// authoritatively, store the refreshed key, and deliver the request
    /// once more as a retry.
    NeedRefetch { uri: String },
    /// The delivery is settled.
    Done(DispatchResult),
}

/// Whether the instance the signer belongs to is blocked.
pub open spec fn signer_instance_blocked(pre: Store, sender_idx: int) -> bool {
    exists|j: int|
        0 <= j < pre.instances@.len() && (#[trigger] pre.instances@[j]).id
            == pre.actors@[sender_idx].instance_id && pre.instances@[j].blocked
}

/// How a settled delivery relates the store before and after, given the
/// index of the verified signer.
pub open spec fn inbox_done_post(
    pre: Store,
    post: Store,
    req: IncomingRequest,
    sender_idx: int,
    reply: DispatchResult,
) -> bool {
    if signer_instance_blocked(pre, sender_idx) {
        reply.outcome == Outcome::Rejected(Error::Blocked) && post == pre
    } else {
        let sender_id = pre.actors@[sender_idx].id;
        match reply.outcome {
            Outcome::Duplicate => post == pre && pre.has_record(req.activity.id@),
            Outcome::Rejected(e) => post == pre && !pre.has_record(req.activity.id@)
                && dispatch_rejection(pre, req.activity, sender_id, e),
            Outcome::Applied => !pre.has_record(req.activity.id@) && (forall|u: Seq<char>|
                #[trigger] post.has_record(u) == (pre.has_record(u) || u == req.activity.id@))
                && dispatch_effect(pre, post, req.activity, sender_id),
        }
    }
}

/// Receive one inbound delivery and either settle it or ask the driver
/// for a fetch. `retried` says whether the signer's key was already
/// refetched for this delivery: verification failure is then final.
///
/// The digest and dedup gates are cheap early exits; no store write
/// happens unless the request verified, its signer's instance is not
/// blocked, and its activity URI was never applied before.
pub fn inbox_receive(s: &mut Store, req: &IncomingRequest, retried: bool) -> (r: InboxStep)
    requires
        old(s).wf(),
        old(s).next_id < u64::MAX - 2,
    ensures
        final(s).wf(),
        old(s).next_id <= final(s).next_id,
        final(s).next_id <= old(s).next_id + 2,
        final(s).instances == old(s).instances,
        match r {
            InboxStep::NeedActor { uri } => {
                &&& *final(s) == *old(s)
                &&& uri@ == req.activity.actor_uri@
                &&& digest_gate(*req)
                &&& !old(s).has_actor_uri(uri@)
                &&& match spec_uri_domain(uri@) {
                    Some(d) => !old(s).domain_is_blocked(d),
                    None => true,
                }
            },
            InboxStep::NeedRefetch { uri } => {
                &&& *final(s) == *old(s)
                &&& uri@ == req.activity.actor_uri@
                &&& digest_gate(*req)
                &&& !retried
                &&& exists|i: int|
                    0 <= i < old(s).actors@.len() && (#[trigger] old(s).actors@[i]).uri@ == uri@
                        && !request_verified(*req, old(s).actors@[i])
            },
            InboxStep::Done(reply) => {
                ||| (!digest_gate(*req) && reply.outcome == Outcome::Rejected(Error::DigestMismatch)
                    && *final(s) == *old(s))
                ||| (digest_gate(*req) && !old(s).has_actor_uri(req.activity.actor_uri@)
                    && reply.outcome == Outcome::Rejected(Error::Blocked) && *final(s) == *old(s)
                    && exists|d: Seq<char>|
                    spec_uri_domain(req.activity.actor_uri@) == Some(d) && old(
                        s,
                    ).domain_is_blocked(d))
                ||| (digest_gate(*req) && retried && reply.outcome == Outcome::Rejected(
                    Error::InvalidSignature,
                ) && *final(s) == *old(s) && exists|i: int|
                    0 <= i < old(s).actors@.len() && (#[trigger] old(s).actors@[i]).uri@
                        == req.activity.actor_uri@ && !request_verified(*req, old(s).actors@[i]))
                ||| (digest_gate(*req) && exists|i: int|
                    0 <= i < old(s).actors@.len() && (#[trigger] old(s).actors@[i]).uri@
                        == req.activity.actor_uri@ && request_verified(*req, old(s).actors@[i])
                        && inbox_done_post(*old(s), *final(s), *req, i, reply))
            },
        },
{
    if !check_digest(req) {
        return InboxStep::Done(
            DispatchResult {
                outcome: Outcome::Rejected(Error::DigestMismatch),
                notifications: Vec::new(),
            },
        );
    }
    let actor_idx = match s.find_actor_by_uri(&req.activity.actor_uri) {
        Some(i) => i,
        None => {
            // Unknown signer: fail fast on a blocked instance, else ask
            // for a signed fetch. The blocked check costs no network call.
            match uri_domain(req.activity.actor_uri.as_str()) {
                Some(d) => {
                    if s.domain_blocked(&d) {
                        return InboxStep::Done(
                            DispatchResult {
                                outcome: Outcome::Rejected(Error::Blocked),
                                notifications: Vec::new(),
                            },
                        );
                    }
                },
                None => {},
            }
            return InboxStep::NeedActor { uri: req.activity.actor_uri.clone() };
        },
    };
    proof {
        assert((old(s).actors@[actor_idx as int]).uri@ == req.activity.actor_uri@);
    }
    let verified = verify_against(req, &s.actors[actor_idx]);
    if !verified {
        if retried {
            return InboxStep::Done(
                DispatchResult {
                    outcome: Outcome::Rejected(Error::InvalidSignature),
                    notifications: Vec::new(),
                },
            );
        }
        return InboxStep::NeedRefetch { uri: req.activity.actor_uri.clone() };
    }
    // Verified. A blocked instance's activities are silently discarded
    // from here on; then the dedup ledger gates the dispatch.
    let instance_id = s.actors[actor_idx].instance_id;
    match s.find_instance_by_id(instance_id) {
        Some(j) => {
            if s.instances[j].blocked {
                proof {
                    assert((old(s).instances@[j as int]).id == instance_id);
                }
                return InboxStep::Done(
                    DispatchResult {
                        outcome: Outcome::Rejected(Error::Blocked),
                        notifications: Vec::new(),
                    },
                );
            }
        },
        None => {},
    }
    proof {
        assert(!signer_instance_blocked(*old(s), actor_idx as int)) by {
            if signer_instance_blocked(*old(s), actor_idx as int) {
                let j = choose|j: int|
                    0 <= j < old(s).instances@.len() && (#[trigger] old(s).instances@[j]).id == old(
                        s,
                    ).actors@[actor_idx as int].instance_id && old(s).instances@[j].blocked;
            }
        }
    }
    let result = dispatch(s, &req.activity, actor_idx);
    InboxStep::Done(result)
}

} // verus!
