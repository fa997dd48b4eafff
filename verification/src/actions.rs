//! Locally originated actions: publishing, updating and deleting posts,
//! following, liking and resharing.
//!
//! Each action mutates the domain store, builds the outbound activity,
//! emits the events for the notification collaborator, and computes the
//! delivery jobs for the broadcast worker; the caller only enqueues them.
//! A deferred follow-up (such as rotating a key some time after a
//! deletion) is returned as an explicit task.

use crate::broadcast::{
    broadcast_jobs, chosen_inbox, delivery_inboxes, endpoint_of_follower,
    endpoint_of_reaction_recipient, jobs_contain_inbox, lemma_follower_delivery,
    lemma_jobs_cover_recipients, lemma_reaction_delivery, reaction_recipients, DeliveryJob,
};
use crate::errors::Error;
use crate::inbox::{find_an_author, post_has_an_author};
use crate::model::{Activity, ActivityKind, ArticleDoc, Notification, NotificationKind, UndoTarget};
use crate::store::Store;
use vstd::prelude::*;

verus! {

/// Work to run later, off the request path.
pub enum FollowupTask {
    /// Replace the actor's key pair after this many seconds, so that a
    /// sensitive action and the signatures it produced are less linkable.
    RotateKey { actor_id: u64, delay_seconds: u64 },
}

/// How long after a deletion the key rotation runs.
pub const KEY_ROTATION_DELAY_SECONDS: u64 = 600;

/// The outcome of a local action: what changed, what to send and to whom,
/// and the events for the notification collaborator.
pub struct LocalEffect {
    pub activity: Activity,
    pub jobs: Vec<DeliveryJob>,
    pub notifications: Vec<Notification>,
}

/// Toggle a like: record it if absent, or build the undo that reverses it.
/// A fresh like notifies an author of the post; the jobs deliver the
/// activity to the endpoints of the post's authors and the actor's
/// followers, each endpoint once and no other.
pub fn local_like_toggle(
    s: &mut Store,
    actor_idx: usize,
    post_idx: usize,
    activity_id: String,
) -> (r: LocalEffect)
    requires
        old(s).wf(),
        actor_idx < old(s).actors@.len(),
        post_idx < old(s).posts@.len(),
        old(s).next_id < u64::MAX - 1,
    ensures
        final(s).wf(),
        crate::store::same_but_likes(*old(s), *final(s)),
        old(s).next_id <= final(s).next_id,
        final(s).next_id <= old(s).next_id + 1,
        ({
            let a = old(s).actors@[actor_idx as int];
            let p = old(s).posts@[post_idx as int];
            &&& r.activity.actor_uri@ == a.uri@
            &&& !old(s).has_like(a.id, p.id) ==> final(s).has_like(a.id, p.id)
                && (match r.activity.kind {
                ActivityKind::Like { object_uri } => object_uri@ == p.uri@,
                _ => false,
            })
            &&& old(s).has_like(a.id, p.id) ==> !final(s).has_like(a.id, p.id)
                && (match r.activity.kind {
                ActivityKind::Undo { undone: UndoTarget::Like { object_uri } } => object_uri@
                    == p.uri@,
                _ => false,
            })
            &&& !old(s).has_like(a.id, p.id) ==> if post_has_an_author(*old(s), p.id) {
                r.notifications@.len() == 1 && r.notifications@[0].kind == NotificationKind::Like
                    && r.notifications@[0].actor_id == a.id && old(s).has_post_author(
                    p.id,
                    r.notifications@[0].target_actor_id,
                ) && r.notifications@[0].post_id == Some(p.id)
            } else {
                r.notifications@.len() == 0
            }
            &&& old(s).has_like(a.id, p.id) ==> r.notifications@.len() == 0
            &&& forall|i: int|
                0 <= i < final(s).actors@.len() && (final(s).has_follow(
                    (#[trigger] final(s).actors@[i]).id,
                    a.id,
                ) || final(s).has_post_author(p.id, final(s).actors@[i].id)) ==> jobs_contain_inbox(
                    r.jobs@,
                    chosen_inbox(final(s).actors@[i]),
                )
            &&& forall|k: int|
                0 <= k < r.jobs@.len() ==> endpoint_of_reaction_recipient(
                    *final(s),
                    a.id,
                    p.id,
                    (#[trigger] r.jobs@[k]).inbox@,
                )
        }),
        forall|k: int, l: int| 0 <= k < l < r.jobs@.len() ==> r.jobs@[k].inbox@ != r.jobs@[l].inbox@,
        forall|k: int|
            0 <= k < r.jobs@.len() ==> (#[trigger] r.jobs@[k]).body@
                == crate::render::render_activity(r.activity),
{
    let actor_id = s.actors[actor_idx].id;
    let post_id = s.posts[post_idx].id;
    let actor_uri = s.actors[actor_idx].uri.clone();
    let post_uri = s.posts[post_idx].uri.clone();
    let mut notifications: Vec<Notification> = Vec::new();
    let kind = match s.find_like(actor_id, post_id) {
        None => {
            s.insert_like(actor_id, post_id);
            proof {
                crate::store::lemma_same_relations_same_membership(*old(s), *s);
            }
            if let Some(author) = find_an_author(s, post_id) {
                notifications.push(
                    Notification {
                        kind: NotificationKind::Like,
                        actor_id,
                        target_actor_id: author,
                        post_id: Some(post_id),
                    },
                );
                proof {
                    assert(old(s).has_post_author(post_id, author));
                    assert(post_has_an_author(*old(s), post_id));
                }
            } else {
                proof {
                    assert forall|a: u64| !old(s).has_post_author(post_id, a) by {
                        assert(!s.has_post_author(post_id, a));
                    }
                    assert(!post_has_an_author(*old(s), post_id));
                }
            }
            ActivityKind::Like { object_uri: post_uri }
        },
        Some(like_idx) => {
            s.remove_like_at(like_idx);
            ActivityKind::Undo { undone: UndoTarget::Like { object_uri: post_uri } }
        },
    };
    let activity = Activity { id: activity_id, actor_uri, kind, published_at: 0 };
    let recipients = reaction_recipients(s, actor_id, post_id);
    let inboxes = delivery_inboxes(s, &recipients);
    let ghost inbox_list = inboxes@;
    let jobs = broadcast_jobs(&activity, inboxes);
    proof {
        lemma_jobs_cover_recipients(*s, recipients@, inbox_list, jobs@);
        lemma_reaction_delivery(*s, recipients@, actor_id, post_id, jobs@);
    }
    LocalEffect { activity, jobs, notifications }
}

/// Toggle a reshare, exactly as a like.
pub fn local_reshare_toggle(
    s: &mut Store,
    actor_idx: usize,
    post_idx: usize,
    activity_id: String,
) -> (r: LocalEffect)
    requires
        old(s).wf(),
        actor_idx < old(s).actors@.len(),
        post_idx < old(s).posts@.len(),
        old(s).next_id < u64::MAX - 1,
    ensures
        final(s).wf(),
        crate::store::same_but_reshares(*old(s), *final(s)),
        old(s).next_id <= final(s).next_id,
        final(s).next_id <= old(s).next_id + 1,
        ({
            let a = old(s).actors@[actor_idx as int];
            let p = old(s).posts@[post_idx as int];
            &&& r.activity.actor_uri@ == a.uri@
            &&& !old(s).has_reshare(a.id, p.id) ==> final(s).has_reshare(a.id, p.id) && (
            match r.activity.kind {
                ActivityKind::Announce { object_uri } => object_uri@ == p.uri@,
                _ => false,
            })
            &&& old(s).has_reshare(a.id, p.id) ==> !final(s).has_reshare(a.id, p.id)
                && (match r.activity.kind {
                ActivityKind::Undo { undone: UndoTarget::Announce { object_uri } } => object_uri@
                    == p.uri@,
                _ => false,
            })
            &&& !old(s).has_reshare(a.id, p.id) ==> if post_has_an_author(*old(s), p.id) {
                r.notifications@.len() == 1 && r.notifications@[0].kind
                    == NotificationKind::Reshare && r.notifications@[0].actor_id == a.id && old(
                    s,
                ).has_post_author(p.id, r.notifications@[0].target_actor_id)
                    && r.notifications@[0].post_id == Some(p.id)
            } else {
                r.notifications@.len() == 0
            }
            &&& old(s).has_reshare(a.id, p.id) ==> r.notifications@.len() == 0
            &&& forall|i: int|
                0 <= i < final(s).actors@.len() && (final(s).has_follow(
                    (#[trigger] final(s).actors@[i]).id,
                    a.id,
                ) || final(s).has_post_author(p.id, final(s).actors@[i].id)) ==> jobs_contain_inbox(
                    r.jobs@,
                    chosen_inbox(final(s).actors@[i]),
                )
            &&& forall|k: int|
                0 <= k < r.jobs@.len() ==> endpoint_of_reaction_recipient(
                    *final(s),
                    a.id,
                    p.id,
                    (#[trigger] r.jobs@[k]).inbox@,
                )
        }),
        forall|k: int, l: int| 0 <= k < l < r.jobs@.len() ==> r.jobs@[k].inbox@ != r.jobs@[l].inbox@,
        forall|k: int|
            0 <= k < r.jobs@.len() ==> (#[trigger] r.jobs@[k]).body@
                == crate::render::render_activity(r.activity),
{
    let actor_id = s.actors[actor_idx].id;
    let post_id = s.posts[post_idx].id;
    let actor_uri = s.actors[actor_idx].uri.clone();
    let post_uri = s.posts[post_idx].uri.clone();
    let mut notifications: Vec<Notification> = Vec::new();
    let kind = match s.find_reshare(actor_id, post_id) {
        None => {
            s.insert_reshare(actor_id, post_id);
            proof {
                crate::store::lemma_same_relations_same_membership(*old(s), *s);
            }
            if let Some(author) = find_an_author(s, post_id) {
                notifications.push(
                    Notification {
                        kind: NotificationKind::Reshare,
                        actor_id,
                        target_actor_id: author,
                        post_id: Some(post_id),
                    },
                );
                proof {
                    assert(old(s).has_post_author(post_id, author));
                    assert(post_has_an_author(*old(s), post_id));
                }
            } else {
                proof {
                    assert forall|a: u64| !old(s).has_post_author(post_id, a) by {
                        assert(!s.has_post_author(post_id, a));
                    }
                    assert(!post_has_an_author(*old(s), post_id));
                }
            }
            ActivityKind::Announce { object_uri: post_uri }
        },
        Some(idx) => {
            s.remove_reshare_at(idx);
            ActivityKind::Undo { undone: UndoTarget::Announce { object_uri: post_uri } }
        },
    };
    let activity = Activity { id: activity_id, actor_uri, kind, published_at: 0 };
    let recipients = reaction_recipients(s, actor_id, post_id);
    let inboxes = delivery_inboxes(s, &recipients);
    let ghost inbox_list = inboxes@;
    let jobs = broadcast_jobs(&activity, inboxes);
    proof {
        lemma_jobs_cover_recipients(*s, recipients@, inbox_list, jobs@);
        lemma_reaction_delivery(*s, recipients@, actor_id, post_id, jobs@);
    }
    LocalEffect { activity, jobs, notifications }
}

/// Toggle a follow of a target actor: create the relation and the follow
/// activity, or reverse both. A fresh follow notifies the target; the
/// activity is delivered to the target's inbox alone.
pub fn local_follow_toggle(
    s: &mut Store,
    follower_idx: usize,
    target_idx: usize,
    activity_id: String,
) -> (r: LocalEffect)
    requires
        old(s).wf(),
        follower_idx < old(s).actors@.len(),
        target_idx < old(s).actors@.len(),
        old(s).next_id < u64::MAX - 1,
    ensures
        final(s).wf(),
        crate::store::same_but_follows(*old(s), *final(s)),
        old(s).next_id <= final(s).next_id,
        final(s).next_id <= old(s).next_id + 1,
        ({
            let a = old(s).actors@[follower_idx as int];
            let t = old(s).actors@[target_idx as int];
            &&& r.activity.actor_uri@ == a.uri@
            &&& !old(s).has_follow(a.id, t.id) ==> final(s).has_follow(a.id, t.id) && (
            match r.activity.kind {
                ActivityKind::Follow { target_uri } => target_uri@ == t.uri@,
                _ => false,
            })
            &&& old(s).has_follow(a.id, t.id) ==> !final(s).has_follow(a.id, t.id)
                && (match r.activity.kind {
                ActivityKind::Undo { undone: UndoTarget::Follow { target_uri } } => target_uri@
                    == t.uri@,
                _ => false,
            })
            &&& !old(s).has_follow(a.id, t.id) ==> r.notifications@ == seq![
                (Notification {
                    kind: NotificationKind::Follow,
                    actor_id: a.id,
                    target_actor_id: t.id,
                    post_id: None,
                }),
            ]
            &&& old(s).has_follow(a.id, t.id) ==> r.notifications@.len() == 0
        }),
        r.jobs@.len() == 1,
        r.jobs@[0].inbox@ == chosen_inbox(old(s).actors@[target_idx as int]),
        r.jobs@[0].body@ == crate::render::render_activity(r.activity),
{
    let follower_id = s.actors[follower_idx].id;
    let target_id = s.actors[target_idx].id;
    let follower_uri = s.actors[follower_idx].uri.clone();
    let target_uri = s.actors[target_idx].uri.clone();
    let inbox = match &s.actors[target_idx].shared_inbox_uri {
        Some(u) => u.clone(),
        None => s.actors[target_idx].inbox_uri.clone(),
    };
    let mut notifications: Vec<Notification> = Vec::new();
    let kind = match s.find_follow(follower_id, target_id) {
        None => {
            s.insert_follow(follower_id, target_id, String::new());
            notifications.push(
                Notification {
                    kind: NotificationKind::Follow,
                    actor_id: follower_id,
                    target_actor_id: target_id,
                    post_id: None,
                },
            );
            proof {
                assert(notifications@ =~= seq![
                    (Notification {
                        kind: NotificationKind::Follow,
                        actor_id: follower_id,
                        target_actor_id: target_id,
                        post_id: None,
                    }),
                ]);
            }
            ActivityKind::Follow { target_uri }
        },
        Some(idx) => {
            s.remove_follow_at(idx);
            ActivityKind::Undo { undone: UndoTarget::Follow { target_uri } }
        },
    };
    let activity = Activity { id: activity_id, actor_uri: follower_uri, kind, published_at: 0 };
    let mut inboxes: Vec<String> = Vec::new();
    inboxes.push(inbox);
    let jobs = broadcast_jobs(&activity, inboxes);
    LocalEffect { activity, jobs, notifications }
}

/// Publish a new article: persist it attributed to its author and, unless
/// it stays a draft, build the create activity and the delivery jobs for
/// the endpoints of the author's followers, each once and no other. A URI
/// the store already holds is refused.
pub fn publish_post(
    s: &mut Store,
    author_idx: usize,
    uri: String,
    title: String,
    content: String,
    draft: bool,
    activity_id: String,
) -> (r: Result<(usize, Option<LocalEffect>), Error>)
    requires
        old(s).wf(),
        author_idx < old(s).actors@.len(),
        old(s).next_id < u64::MAX - 2,
    ensures
        final(s).wf(),
        crate::store::same_but_posts(*old(s), *final(s)),
        old(s).next_id <= final(s).next_id,
        final(s).next_id <= old(s).next_id + 2,
        match r {
            Ok((post_idx, effect)) => {
                &&& !old(s).has_post_uri(uri@)
                &&& final(s).has_post_uri(uri@)
                &&& post_idx < final(s).posts@.len()
                &&& final(s).posts@[post_idx as int].uri@ == uri@
                &&& final(s).posts@[post_idx as int].title@ == title@
                &&& final(s).posts@[post_idx as int].content@ == content@
                &&& final(s).posts@[post_idx as int].published == !draft
                &&& final(s).has_post_author(
                    final(s).posts@[post_idx as int].id,
                    old(s).actors@[author_idx as int].id,
                )
                &&& match effect {
                    Some(e) => {
                        &&& !draft
                        &&& (match e.activity.kind {
                            ActivityKind::Create { object } => object.uri@ == uri@ && object.title@
                                == title@ && object.content@ == content@,
                            _ => false,
                        })
                        &&& e.activity.actor_uri@ == old(s).actors@[author_idx as int].uri@
                        &&& e.notifications@.len() == 0
                        &&& forall|k: int, l: int|
                            0 <= k < l < e.jobs@.len() ==> e.jobs@[k].inbox@ != e.jobs@[l].inbox@
                        &&& forall|k: int|
                            0 <= k < e.jobs@.len() ==> (#[trigger] e.jobs@[k]).body@
                                == crate::render::render_activity(e.activity)
                        &&& forall|i: int|
                            0 <= i < final(s).actors@.len() && final(s).has_follow(
                                (#[trigger] final(s).actors@[i]).id,
                                old(s).actors@[author_idx as int].id,
                            ) ==> jobs_contain_inbox(e.jobs@, chosen_inbox(final(s).actors@[i]))
                        &&& forall|k: int|
                            0 <= k < e.jobs@.len() ==> endpoint_of_follower(
                                *final(s),
                                old(s).actors@[author_idx as int].id,
                                (#[trigger] e.jobs@[k]).inbox@,
                            )
                    },
                    None => draft,
                }
            },
            Err(e) => e == Error::StoreError && old(s).has_post_uri(uri@) && *final(s) == *old(s),
        },
{
    if s.find_post_by_uri(&uri).is_some() {
        return Err(Error::StoreError);
    }
    let author_id = s.actors[author_idx].id;
    let author_uri = s.actors[author_idx].uri.clone();
    proof {
        assert(old(s).actors@[author_idx as int].id == author_id);
        assert(old(s).has_actor_id(author_id));
    }
    let post_idx = s.insert_post(uri.clone(), title.clone(), content.clone(), !draft, author_id);
    if draft {
        return Ok((post_idx, None));
    }
    let object = ArticleDoc { uri, title, content };
    let activity = Activity {
        id: activity_id,
        actor_uri: author_uri,
        kind: ActivityKind::Create { object },
        published_at: 0,
    };
    let followers = s.followers_of(author_id);
    let inboxes = delivery_inboxes(s, &followers);
    let ghost inbox_list = inboxes@;
    let jobs = broadcast_jobs(&activity, inboxes);
    proof {
        lemma_jobs_cover_recipients(*s, followers@, inbox_list, jobs@);
        lemma_follower_delivery(*s, followers@, author_id, jobs@);
    }
    Ok((post_idx, Some(LocalEffect { activity, jobs, notifications: Vec::new() })))
}

/// Overwrite a post's mutable fields as its author, and build the update
/// (or, for a post first leaving draft, the create) activity for the
/// endpoints of the author's followers, each once and no other. A post
/// that stays a draft broadcasts nothing.
pub fn update_local_post(
    s: &mut Store,
    author_idx: usize,
    post_idx: usize,
    title: String,
    content: String,
    draft: bool,
    activity_id: String,
) -> (r: Result<LocalEffect, Error>)
    requires
        old(s).wf(),
        author_idx < old(s).actors@.len(),
        post_idx < old(s).posts@.len(),
        old(s).next_id < u64::MAX - 1,
    ensures
        final(s).wf(),
        crate::store::same_but_posts(*old(s), *final(s)),
        final(s).post_authors == old(s).post_authors,
        final(s).next_id == old(s).next_id,
        match r {
            Ok(effect) => {
                &&& old(s).has_post_author(
                    old(s).posts@[post_idx as int].id,
                    old(s).actors@[author_idx as int].id,
                )
                &&& final(s).posts@ == old(s).posts@.update(
                    post_idx as int,
                    final(s).posts@[post_idx as int],
                )
                &&& final(s).posts@[post_idx as int].title@ == title@
                &&& final(s).posts@[post_idx as int].content@ == content@
                &&& final(s).posts@[post_idx as int].uri == old(s).posts@[post_idx as int].uri
                &&& final(s).posts@[post_idx as int].id == old(s).posts@[post_idx as int].id
                &&& final(s).posts@[post_idx as int].published == (old(
                    s,
                ).posts@[post_idx as int].published || !draft)
                &&& effect.activity.actor_uri@ == old(s).actors@[author_idx as int].uri@
                &&& (match effect.activity.kind {
                    ActivityKind::Create { object } => !old(s).posts@[post_idx as int].published
                        && !draft && object.uri@ == old(s).posts@[post_idx as int].uri@,
                    ActivityKind::Update { object } => !(!old(s).posts@[post_idx as int].published
                        && !draft) && object.uri@ == old(s).posts@[post_idx as int].uri@,
                    _ => false,
                })
                &&& effect.notifications@.len() == 0
                &&& (!old(s).posts@[post_idx as int].published && draft)
                    ==> effect.jobs@.len() == 0
                &&& (old(s).posts@[post_idx as int].published || !draft) ==> {
                    &&& forall|k: int, l: int|
                        0 <= k < l < effect.jobs@.len() ==> effect.jobs@[k].inbox@
                            != effect.jobs@[l].inbox@
                    &&& forall|k: int|
                        0 <= k < effect.jobs@.len() ==> (#[trigger] effect.jobs@[k]).body@
                            == crate::render::render_activity(effect.activity)
                    &&& forall|i: int|
                        0 <= i < final(s).actors@.len() && final(s).has_follow(
                            (#[trigger] final(s).actors@[i]).id,
                            old(s).actors@[author_idx as int].id,
                        ) ==> jobs_contain_inbox(effect.jobs@, chosen_inbox(final(s).actors@[i]))
                    &&& forall|k: int|
                        0 <= k < effect.jobs@.len() ==> endpoint_of_follower(
                            *final(s),
                            old(s).actors@[author_idx as int].id,
                            (#[trigger] effect.jobs@[k]).inbox@,
                        )
                }
            },
            Err(e) => e == Error::NotFound && *final(s) == *old(s) && !old(s).has_post_author(
                old(s).posts@[post_idx as int].id,
                old(s).actors@[author_idx as int].id,
            ),
        },
{
    let author_id = s.actors[author_idx].id;
    let post_id = s.posts[post_idx].id;
    if !s.is_author(post_id, author_id) {
        return Err(Error::NotFound);
    }
    let author_uri = s.actors[author_idx].uri.clone();
    let post_uri = s.posts[post_idx].uri.clone();
    let was_published = s.posts[post_idx].published;
    let tombstoned = s.posts[post_idx].tombstoned;
    let newly_published = !was_published && !draft;
    s.replace_post_fields(
        post_idx,
        title.clone(),
        content.clone(),
        was_published || !draft,
        tombstoned,
    );
    let object = ArticleDoc { uri: post_uri, title, content };
    let kind = if newly_published {
        ActivityKind::Create { object }
    } else {
        ActivityKind::Update { object }
    };
    let activity = Activity { id: activity_id, actor_uri: author_uri, kind, published_at: 0 };
    let deliver = newly_published || was_published;
    let jobs = if deliver {
        let followers = s.followers_of(author_id);
        let inboxes = delivery_inboxes(s, &followers);
        let ghost inbox_list = inboxes@;
        let jobs = broadcast_jobs(&activity, inboxes);
        proof {
            lemma_jobs_cover_recipients(*s, followers@, inbox_list, jobs@);
            lemma_follower_delivery(*s, followers@, author_id, jobs@);
        }
        jobs
    } else {
        Vec::new()
    };
    Ok(LocalEffect { activity, jobs, notifications: Vec::new() })
}

/// Delete a post as its author: tombstone it, build the delete activity
/// for the endpoints of the author's followers (each once and no other),
/// and schedule a key rotation a fixed delay later so the deletion is less
/// linkable to its signatures.
pub fn delete_local_post(
    s: &mut Store,
    author_idx: usize,
    post_idx: usize,
    activity_id: String,
) -> (r: Result<(LocalEffect, FollowupTask), Error>)
    requires
        old(s).wf(),
        author_idx < old(s).actors@.len(),
        post_idx < old(s).posts@.len(),
        old(s).next_id < u64::MAX - 1,
    ensures
        final(s).wf(),
        crate::store::same_but_posts(*old(s), *final(s)),
        final(s).post_authors == old(s).post_authors,
        final(s).next_id == old(s).next_id,
        match r {
            Ok((effect, task)) => {
                &&& old(s).has_post_author(
                    old(s).posts@[post_idx as int].id,
                    old(s).actors@[author_idx as int].id,
                )
                &&& final(s).posts@ == old(s).posts@.update(
                    post_idx as int,
                    final(s).posts@[post_idx as int],
                )
                &&& final(s).posts@[post_idx as int].tombstoned == true
                &&& final(s).posts@[post_idx as int].uri == old(s).posts@[post_idx as int].uri
                &&& final(s).posts@[post_idx as int].id == old(s).posts@[post_idx as int].id
                &&& (match effect.activity.kind {
                    ActivityKind::Delete { object_uri } => object_uri@ == old(
                        s,
                    ).posts@[post_idx as int].uri@,
                    _ => false,
                })
                &&& effect.notifications@.len() == 0
                &&& forall|k: int, l: int|
                    0 <= k < l < effect.jobs@.len() ==> effect.jobs@[k].inbox@
                        != effect.jobs@[l].inbox@
                &&& forall|k: int|
                    0 <= k < effect.jobs@.len() ==> (#[trigger] effect.jobs@[k]).body@
                        == crate::render::render_activity(effect.activity)
                &&& forall|i: int|
                    0 <= i < final(s).actors@.len() && final(s).has_follow(
                        (#[trigger] final(s).actors@[i]).id,
                        old(s).actors@[author_idx as int].id,
                    ) ==> jobs_contain_inbox(effect.jobs@, chosen_inbox(final(s).actors@[i]))
                &&& forall|k: int|
                    0 <= k < effect.jobs@.len() ==> endpoint_of_follower(
                        *final(s),
                        old(s).actors@[author_idx as int].id,
                        (#[trigger] effect.jobs@[k]).inbox@,
                    )
                &&& (match task {
                    FollowupTask::RotateKey { actor_id, delay_seconds } => actor_id == old(
                        s,
                    ).actors@[author_idx as int].id && delay_seconds
                        == KEY_ROTATION_DELAY_SECONDS,
                })
            },
            Err(e) => e == Error::NotFound && *final(s) == *old(s) && !old(s).has_post_author(
                old(s).posts@[post_idx as int].id,
                old(s).actors@[author_idx as int].id,
            ),
        },
{
    let author_id = s.actors[author_idx].id;
    let post_id = s.posts[post_idx].id;
    if !s.is_author(post_id, author_id) {
        return Err(Error::NotFound);
    }
    let author_uri = s.actors[author_idx].uri.clone();
    let post_uri = s.posts[post_idx].uri.clone();
    let title = s.posts[post_idx].title.clone();
    let content = s.posts[post_idx].content.clone();
    let published = s.posts[post_idx].published;
    s.replace_post_fields(post_idx, title, content, published, true);
    let activity = Activity {
        id: activity_id,
        actor_uri: author_uri,
        kind: ActivityKind::Delete { object_uri: post_uri },
        published_at: 0,
    };
    let followers = s.followers_of(author_id);
    let inboxes = delivery_inboxes(s, &followers);
    let ghost inbox_list = inboxes@;
    let jobs = broadcast_jobs(&activity, inboxes);
    proof {
        lemma_jobs_cover_recipients(*s, followers@, inbox_list, jobs@);
        lemma_follower_delivery(*s, followers@, author_id, jobs@);
    }
    let task = FollowupTask::RotateKey {
        actor_id: author_id,
        delay_seconds: KEY_ROTATION_DELAY_SECONDS,
    };
    Ok((LocalEffect { activity, jobs, notifications: Vec::new() }, task))
}

/// Emit the explicit accept of an inbound follow, as application logic
/// does after reviewing it: the inbox handler itself never auto-accepts.
/// The accept is delivered to the follower's inbox alone.
pub fn accept_follow(
    s: &Store,
    acceptor_idx: usize,
    follower_idx: usize,
    follow_activity_uri: String,
    activity_id: String,
) -> (r: LocalEffect)
    requires
        s.wf(),
        acceptor_idx < s.actors@.len(),
        follower_idx < s.actors@.len(),
    ensures
        r.activity.actor_uri@ == s.actors@[acceptor_idx as int].uri@,
        (match r.activity.kind {
            ActivityKind::Accept { follow_activity_uri: u } => u@ == follow_activity_uri@,
            _ => false,
        }),
        r.notifications@.len() == 0,
        r.jobs@.len() == 1,
        r.jobs@[0].inbox@ == chosen_inbox(s.actors@[follower_idx as int]),
        r.jobs@[0].body@ == crate::render::render_activity(r.activity),
{
    let actor_uri = s.actors[acceptor_idx].uri.clone();
    let inbox = match &s.actors[follower_idx].shared_inbox_uri {
        Some(u) => u.clone(),
        None => s.actors[follower_idx].inbox_uri.clone(),
    };
    let activity = Activity {
        id: activity_id,
        actor_uri,
        kind: ActivityKind::Accept { follow_activity_uri },
        published_at: 0,
    };
    let mut inboxes: Vec<String> = Vec::new();
    inboxes.push(inbox);
    let jobs = broadcast_jobs(&activity, inboxes);
    LocalEffect { activity, jobs, notifications: Vec::new() }
}

} // verus!
