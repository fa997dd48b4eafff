//! Background enrichment of newly discovered remote actors.
//!
//! Discovery events flow through an explicit bounded queue owned by one
//! supervisor; a fixed-size worker group consumes them, so enrichment for
//! different actors runs concurrently while the per-event steps (outbox
//! import, follower import, profile refresh) stay sequential. The worker
//! bound is configured apart from the database-connection pool: that
//! decoupling is what keeps enrichment from starving interactive traffic.

use crate::model::{ActivityKind, Activity, ActorDoc};
use crate::store::{lemma_same_relations_same_membership, Store};
use vstd::prelude::*;

verus! {

/// The supervisor's state: pending discovery events and how many workers
/// are busy, never more than the configured bound.
pub struct EnrichmentQueue {
    pub pending: Vec<u64>,
    pub worker_limit: usize,
    pub active: usize,
}

impl EnrichmentQueue {
    /// The concurrency bound is respected.
    pub open spec fn wf(self) -> bool {
        &&& self.active <= self.worker_limit
        &&& self.worker_limit >= 1
    }

    /// A new queue with the given worker bound.
    pub fn new(worker_limit: usize) -> (r: EnrichmentQueue)
        requires
            worker_limit >= 1,
        ensures
            r.wf(),
            r.pending@.len() == 0,
            r.active == 0,
            r.worker_limit == worker_limit,
    {
        EnrichmentQueue { pending: Vec::new(), worker_limit, active: 0 }
    }

    /// The dispatcher pushes a discovery event; it never blocks on it.
    pub fn push_event(&mut self, actor_id: u64)
        requires
            old(self).wf(),
        ensures
            final(self).wf(),
            final(self).pending@ == old(self).pending@.push(actor_id),
            final(self).active == old(self).active,
            final(self).worker_limit == old(self).worker_limit,
    {
        self.pending.push(actor_id);
    }

    /// Hand the oldest pending event to a worker, if one is free. The
    /// count of busy workers never exceeds the bound.
    pub fn begin_work(&mut self) -> (r: Option<u64>)
        requires
            old(self).wf(),
        ensures
            final(self).wf(),
            final(self).worker_limit == old(self).worker_limit,
            match r {
                Some(id) => {
                    &&& old(self).active < old(self).worker_limit
                    &&& old(self).pending@.len() > 0
                    &&& id == old(self).pending@[0]
                    &&& final(self).pending@ == old(self).pending@.remove(0)
                    &&& final(self).active == old(self).active + 1
                },
                None => {
                    &&& *final(self) == *old(self)
                    &&& (old(self).active == old(self).worker_limit || old(self).pending@.len()
                        == 0)
                },
            },
    {
        if self.active >= self.worker_limit || self.pending.len() == 0 {
            return None;
        }
        let id = self.pending.remove(0);
        self.active = self.active + 1;
        Some(id)
    }

    /// A worker finished one event.
    pub fn finish_work(&mut self)
        requires
            old(self).wf(),
            old(self).active > 0,
        ensures
            final(self).wf(),
            final(self).active == old(self).active - 1,
            final(self).pending == old(self).pending,
            final(self).worker_limit == old(self).worker_limit,
    {
        self.active = self.active - 1;
    }
}

/// The steps one discovery event asks for. They run one after another for
/// the same actor, never in parallel, to bound the connections one event
/// can hold.
pub struct EnrichmentPlan {
    pub import_outbox: bool,
    pub import_followers: bool,
    pub refresh_profile: bool,
}

/// Decide the enrichment steps for a discovered actor: nothing for an
/// actor on a blocked instance; a profile refresh only when the local copy
/// is stale.
pub fn enrichment_plan(s: &Store, actor_idx: usize) -> (r: EnrichmentPlan)
    requires
        s.wf(),
        actor_idx < s.actors@.len(),
    ensures
        ({
            let blocked = exists|j: int|
                0 <= j < s.instances@.len() && (#[trigger] s.instances@[j]).id
                    == s.actors@[actor_idx as int].instance_id && s.instances@[j].blocked;
            &&& r.import_outbox == !blocked
            &&& r.import_followers == !blocked
            &&& r.refresh_profile == (!blocked && !s.actors@[actor_idx as int].fully_fetched)
        }),
{
    let instance_id = s.actors[actor_idx].instance_id;
    let blocked = match s.find_instance_by_id(instance_id) {
        Some(j) => {
            proof {
                assert((s.instances@[j as int]).id == instance_id);
            }
            s.instances[j].blocked
        },
        None => false,
    };
    proof {
        let spec_blocked = exists|j: int|
            0 <= j < s.instances@.len() && (#[trigger] s.instances@[j]).id
                == s.actors@[actor_idx as int].instance_id && s.instances@[j].blocked;
        if blocked {
            assert(spec_blocked);
        }
        if !blocked && spec_blocked {
            let j = choose|j: int|
                0 <= j < s.instances@.len() && (#[trigger] s.instances@[j]).id
                    == s.actors@[actor_idx as int].instance_id && s.instances@[j].blocked;
        }
    }
    if blocked {
        EnrichmentPlan { import_outbox: false, import_followers: false, refresh_profile: false }
    } else {
        let stale = s.actors[actor_idx].needs_update();
        EnrichmentPlan { import_outbox: true, import_followers: true, refresh_profile: stale }
    }
}

/// Whether the store knows an actor with this URI under this id.
pub open spec fn actor_uri_id(s: Store, uri: Seq<char>, id: u64) -> bool {
    exists|i: int|
        0 <= i < s.actors@.len() && (#[trigger] s.actors@[i]).uri@ == uri && s.actors@[i].id == id
}

/// Import up to `max` of a discovered actor's existing articles from its
/// fetched outbox: every create by that actor whose object URI is new is
/// persisted through the same path an inbound create takes, published and
/// attributed to the actor, until the budget runs out; any other item is
/// skipped and never aborts the batch. Nothing already stored is lost, and
/// the result counts exactly the articles added.
pub fn import_outbox(s: &mut Store, actor_idx: usize, activities: &Vec<Activity>, max: usize) -> (r:
    usize)
    requires
        old(s).wf(),
        actor_idx < old(s).actors@.len(),
        old(s).next_id + 2 * activities@.len() < u64::MAX,
    ensures
        final(s).wf(),
        crate::store::same_but_posts(*old(s), *final(s)),
        old(s).next_id <= final(s).next_id,
        final(s).next_id <= old(s).next_id + 2 * r,
        r <= max,
        final(s).posts@.len() == old(s).posts@.len() + r,
        forall|u: Seq<char>| old(s).has_post_uri(u) ==> #[trigger] final(s).has_post_uri(u),
        forall|p: u64, a: u64|
            old(s).has_post_author(p, a) ==> #[trigger] final(s).has_post_author(p, a),
        forall|i: int|
            old(s).posts@.len() <= i < final(s).posts@.len() ==> (#[trigger] final(s).posts@[i]).published
                && final(s).has_post_author(
                final(s).posts@[i].id,
                old(s).actors@[actor_idx as int].id,
            ),
        r < max ==> forall|j: int|
            0 <= j < activities@.len() ==> match (#[trigger] activities@[j]).kind {
                ActivityKind::Create { object } => activities@[j].actor_uri@ == old(
                    s,
                ).actors@[actor_idx as int].uri@ ==> final(s).has_post_uri(object.uri@),
                _ => true,
            },
{
    let actor_id = s.actors[actor_idx].id;
    let actor_uri = s.actors[actor_idx].uri.clone();
    let mut applied: usize = 0;
    let mut i: usize = 0;
    while i < activities.len()
        invariant
            s.wf(),
            actor_idx < s.actors@.len(),
            crate::store::same_but_posts(*old(s), *s),
            s.has_actor_id(actor_id),
            actor_id == old(s).actors@[actor_idx as int].id,
            actor_uri@ == old(s).actors@[actor_idx as int].uri@,
            i <= activities@.len(),
            applied <= max,
            applied <= i,
            s.posts@.len() == old(s).posts@.len() + applied,
            old(s).next_id + 2 * activities@.len() < u64::MAX,
            s.next_id <= old(s).next_id + 2 * applied,
            old(s).next_id <= s.next_id,
            forall|u: Seq<char>| old(s).has_post_uri(u) ==> #[trigger] s.has_post_uri(u),
            forall|p: u64, a: u64|
                old(s).has_post_author(p, a) ==> #[trigger] s.has_post_author(p, a),
            forall|ix: int|
                old(s).posts@.len() <= ix < s.posts@.len() ==> (#[trigger] s.posts@[ix]).published
                    && s.has_post_author(s.posts@[ix].id, actor_id),
            applied < max ==> forall|j: int|
                0 <= j < i ==> match (#[trigger] activities@[j]).kind {
                    ActivityKind::Create { object } => activities@[j].actor_uri@ == actor_uri@
                        ==> s.has_post_uri(object.uri@),
                    _ => true,
                },
        decreases activities@.len() - i,
    {
        let ghost pre = *s;
        if applied < max {
            match &activities[i].kind {
                ActivityKind::Create { object } => {
                    if activities[i].actor_uri.eq(&actor_uri) {
                        if s.find_post_by_uri(&object.uri).is_none() {
                            s.insert_post(
                                object.uri.clone(),
                                object.title.clone(),
                                object.content.clone(),
                                true,
                                actor_id,
                            );
                            applied = applied + 1;
                            proof {
                                lemma_same_relations_same_membership(pre, *s);
                                assert forall|ix: int|
                                    old(s).posts@.len() <= ix < s.posts@.len() implies (
                                #[trigger] s.posts@[ix]).published && s.has_post_author(
                                    s.posts@[ix].id,
                                    actor_id,
                                ) by {
                                    if ix < pre.posts@.len() {
                                        assert(pre.posts@[ix].published && pre.has_post_author(
                                            pre.posts@[ix].id,
                                            actor_id,
                                        ));
                                    }
                                }
                            }
                        }
                    }
                },
                _ => {},
            }
        }
        i += 1;
    }
    applied
}

/// Import a discovered actor's declared followers: each resolved follower
/// document is persisted if unknown, and a follow towards the discovered
/// actor is recorded for the actor holding its URI. A failed resolution
/// (`None`) is skipped and never aborts the batch; nothing already
/// recorded is lost.
pub fn import_followers(
    s: &mut Store,
    actor_idx: usize,
    follower_docs: &Vec<Option<ActorDoc>>,
) -> (r: usize)
    requires
        old(s).wf(),
        actor_idx < old(s).actors@.len(),
        old(s).next_id + 3 * follower_docs@.len() < u64::MAX,
    ensures
        final(s).wf(),
        r <= follower_docs@.len(),
        final(s).posts == old(s).posts,
        final(s).post_authors == old(s).post_authors,
        final(s).likes == old(s).likes,
        final(s).reshares == old(s).reshares,
        final(s).inbox_records == old(s).inbox_records,
        old(s).next_id <= final(s).next_id,
        final(s).next_id <= old(s).next_id + 3 * follower_docs@.len(),
        forall|a: u64, b: u64| old(s).has_follow(a, b) ==> #[trigger] final(s).has_follow(a, b),
        forall|u: Seq<char>| old(s).has_actor_uri(u) ==> #[trigger] final(s).has_actor_uri(u),
        forall|k: int|
            0 <= k < follower_docs@.len() ==> match #[trigger] follower_docs@[k] {
                Some(doc) => final(s).has_actor_uri(doc.uri@) && forall|a: u64|
                    #[trigger] actor_uri_id(*final(s), doc.uri@, a) ==> final(s).has_follow(
                        a,
                        old(s).actors@[actor_idx as int].id,
                    ),
                None => true,
            },
{
    let target_id = s.actors[actor_idx].id;
    let mut imported: usize = 0;
    let mut i: usize = 0;
    while i < follower_docs.len()
        invariant
            s.wf(),
            i <= follower_docs@.len(),
            imported <= i,
            target_id == old(s).actors@[actor_idx as int].id,
            s.posts == old(s).posts,
            s.post_authors == old(s).post_authors,
            s.likes == old(s).likes,
            s.reshares == old(s).reshares,
            s.inbox_records == old(s).inbox_records,
            old(s).next_id + 3 * follower_docs@.len() < u64::MAX,
            old(s).next_id <= s.next_id,
            s.next_id <= old(s).next_id + 3 * i,
            forall|a: u64, b: u64| old(s).has_follow(a, b) ==> #[trigger] s.has_follow(a, b),
            forall|u: Seq<char>| old(s).has_actor_uri(u) ==> #[trigger] s.has_actor_uri(u),
            forall|k: int|
                0 <= k < i ==> match #[trigger] follower_docs@[k] {
                    Some(doc) => s.has_actor_uri(doc.uri@) && forall|a: u64|
                        #[trigger] actor_uri_id(*s, doc.uri@, a) ==> s.has_follow(a, target_id),
                    None => true,
                },
        decreases follower_docs@.len() - i,
    {
        let ghost pre = *s;
        match &follower_docs[i] {
            Some(doc) => {
                let found = s.find_actor_by_uri(&doc.uri);
                let follower_idx = match found {
                    Some(idx) => idx,
                    None => s.insert_actor_from_doc(doc, true),
                };
                let ghost mid = *s;
                proof {
                    lemma_same_relations_same_membership(pre, mid);
                    assert forall|u: Seq<char>| pre.has_actor_uri(u) implies
                        #[trigger] mid.has_actor_uri(u) by {}
                }
                let follower_id = s.actors[follower_idx].id;
                if s.find_follow(follower_id, target_id).is_none() {
                    s.insert_follow(follower_id, target_id, String::new());
                    imported = imported + 1;
                }
                proof {
                    crate::store::lemma_same_actors_same_membership(mid, *s);
                    assert(s.has_follow(follower_id, target_id));
                    assert(mid.actors@[follower_idx as int].uri@ == doc.uri@);
                    assert(s.has_actor_uri(doc.uri@));
                    assert forall|u: Seq<char>| old(s).has_actor_uri(u) implies
                        #[trigger] s.has_actor_uri(u) by {
                        assert(pre.has_actor_uri(u));
                        assert(mid.has_actor_uri(u));
                    }
                    assert forall|a: u64, b: u64| old(s).has_follow(a, b) implies
                        #[trigger] s.has_follow(a, b) by {
                        assert(pre.has_follow(a, b));
                        assert(mid.has_follow(a, b));
                    }
                    assert forall|k: int|
                        0 <= k < i + 1 implies match #[trigger] follower_docs@[k] {
                        Some(d2) => s.has_actor_uri(d2.uri@) && forall|a: u64|
                            #[trigger] actor_uri_id(*s, d2.uri@, a) ==> s.has_follow(a, target_id),
                        None => true,
                    } by {
                        match follower_docs@[k] {
                            Some(d2) => {
                                if k < i {
                                    assert(pre.has_actor_uri(d2.uri@));
                                    assert(mid.has_actor_uri(d2.uri@));
                                    assert(s.has_actor_uri(d2.uri@));
                                    assert forall|a: u64|
                                        #[trigger] actor_uri_id(*s, d2.uri@, a) implies s.has_follow(
                                        a,
                                        target_id,
                                    ) by {
                                        let w = choose|w: int|
                                            0 <= w < s.actors@.len() && (#[trigger] s.actors@[w]).uri@
                                                == d2.uri@ && s.actors@[w].id == a;
                                        if w < pre.actors@.len() {
                                            assert(pre.actors@[w] == s.actors@[w]);
                                            assert(actor_uri_id(pre, d2.uri@, a));
                                            assert(pre.has_follow(a, target_id));
                                            assert(mid.has_follow(a, target_id));
                                        } else {
                                            // A row added this round carries the current
                                            // document's URI, which was still unknown; the
                                            // processed document's URI was already present.
                                            assert(!pre.has_actor_uri(s.actors@[w].uri@));
                                            assert(false);
                                        }
                                    }
                                } else {
                                    assert(d2 == *doc);
                                    assert forall|a: u64|
                                        #[trigger] actor_uri_id(*s, d2.uri@, a) implies s.has_follow(
                                        a,
                                        target_id,
                                    ) by {
                                        let w = choose|w: int|
                                            0 <= w < s.actors@.len() && (#[trigger] s.actors@[w]).uri@
                                                == d2.uri@ && s.actors@[w].id == a;
                                        assert(s.actors@[follower_idx as int].uri@ == d2.uri@);
                                        if w != follower_idx as int {
                                            assert(crate::store::distinct_actors(
                                                s.actors@[if w < follower_idx as int {
                                                    w
                                                } else {
                                                    follower_idx as int
                                                }],
                                                s.actors@[if w < follower_idx as int {
                                                    follower_idx as int
                                                } else {
                                                    w
                                                }],
                                            ));
                                        }
                                        assert(w == follower_idx as int);
                                        assert(a == follower_id);
                                    }
                                }
                            },
                            None => {},
                        }
                    }
                }
            },
            None => {},
        }
        i += 1;
    }
    imported
}

} // verus!