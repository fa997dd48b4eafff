//! The domain store: an explicit, in-memory view of the persistence
//! collaborator the engine drives.
//!
//! Uniqueness of the dedup ledger's activity URIs is the source of
//! exactly-once application; uniqueness of relation pairs is what makes the
//! like/reshare/follow handlers idempotent toggles.

use crate::crypto::{derive_public_key, public_key_of};
use crate::model::{Actor, ActorDoc, Follow, InboxRecord, Instance, Like, Post, PostAuthor, Reshare, Role};
use vstd::pervasive::VecAdditionalExecFns;
use vstd::prelude::*;

verus! {

/// The tables the protocol engine reads and writes.
pub struct Store {
    /// Next identifier to assign; every stored id is below it.
    pub next_id: u64,
    pub instances: Vec<Instance>,
    pub actors: Vec<Actor>,
    pub posts: Vec<Post>,
    pub post_authors: Vec<PostAuthor>,
    pub follows: Vec<Follow>,
    pub likes: Vec<Like>,
    pub reshares: Vec<Reshare>,
    pub inbox_records: Vec<InboxRecord>,
}

/// Two instance rows that may share a table: ids and domains differ.
pub open spec fn distinct_instances(a: Instance, b: Instance) -> bool {
    a.id != b.id && a.domain@ != b.domain@
}

/// Two actor rows that may share a table: ids and URIs differ.
pub open spec fn distinct_actors(a: Actor, b: Actor) -> bool {
    a.id != b.id && a.uri@ != b.uri@
}

/// Two post rows that may share a table: ids and URIs differ.
pub open spec fn distinct_posts(a: Post, b: Post) -> bool {
    a.id != b.id && a.uri@ != b.uri@
}

/// Two attribution rows that may share a table: the pairs differ.
pub open spec fn distinct_post_authors(a: PostAuthor, b: PostAuthor) -> bool {
    !(a.post_id == b.post_id && a.author_id == b.author_id)
}

/// Two follow rows that may share a table: the pairs differ.
pub open spec fn distinct_follows(a: Follow, b: Follow) -> bool {
    !(a.follower_id == b.follower_id && a.following_id == b.following_id)
}

/// Two like rows that may share a table: the pairs differ.
pub open spec fn distinct_likes(a: Like, b: Like) -> bool {
    !(a.actor_id == b.actor_id && a.post_id == b.post_id)
}

/// Two reshare rows that may share a table: the pairs differ.
pub open spec fn distinct_reshares(a: Reshare, b: Reshare) -> bool {
    !(a.actor_id == b.actor_id && a.post_id == b.post_id)
}

/// Two ledger rows that may share a table: the activity URIs differ.
pub open spec fn distinct_records(a: InboxRecord, b: InboxRecord) -> bool {
    a.activity_uri@ != b.activity_uri@
}

impl Store {
    pub open spec fn instances_wf(self) -> bool {
        &&& forall|i: int, j: int|
            0 <= i < j < self.instances@.len() ==> distinct_instances(
                #[trigger] self.instances@[i],
                #[trigger] self.instances@[j],
            )
        &&& forall|i: int|
            0 <= i < self.instances@.len() ==> (#[trigger] self.instances@[i]).id < self.next_id
    }

    pub open spec fn actors_wf(self) -> bool {
        &&& forall|i: int, j: int|
            0 <= i < j < self.actors@.len() ==> distinct_actors(
                #[trigger] self.actors@[i],
                #[trigger] self.actors@[j],
            )
        &&& forall|i: int|
            0 <= i < self.actors@.len() ==> (#[trigger] self.actors@[i]).id < self.next_id
                && self.actors@[i].keys_wf()
    }

    pub open spec fn posts_wf(self) -> bool {
        &&& forall|i: int, j: int|
            0 <= i < j < self.posts@.len() ==> distinct_posts(
                #[trigger] self.posts@[i],
                #[trigger] self.posts@[j],
            )
        &&& forall|i: int|
            0 <= i < self.posts@.len() ==> (#[trigger] self.posts@[i]).id < self.next_id
    }

    pub open spec fn post_authors_wf(self) -> bool {
        &&& forall|i: int, j: int|
            0 <= i < j < self.post_authors@.len() ==> distinct_post_authors(
                #[trigger] self.post_authors@[i],
                #[trigger] self.post_authors@[j],
            )
        &&& forall|i: int|
            0 <= i < self.post_authors@.len() ==> (#[trigger] self.post_authors@[i]).id
                < self.next_id && self.post_authors@[i].post_id < self.next_id
                && self.post_authors@[i].author_id < self.next_id
    }

    pub open spec fn follows_wf(self) -> bool {
        &&& forall|i: int, j: int|
            0 <= i < j < self.follows@.len() ==> distinct_follows(
                #[trigger] self.follows@[i],
                #[trigger] self.follows@[j],
            )
        &&& forall|i: int|
            0 <= i < self.follows@.len() ==> (#[trigger] self.follows@[i]).id < self.next_id
    }

    pub open spec fn likes_wf(self) -> bool {
        &&& forall|i: int, j: int|
            0 <= i < j < self.likes@.len() ==> distinct_likes(
                #[trigger] self.likes@[i],
                #[trigger] self.likes@[j],
            )
        &&& forall|i: int|
            0 <= i < self.likes@.len() ==> (#[trigger] self.likes@[i]).id < self.next_id
    }

    pub open spec fn reshares_wf(self) -> bool {
        &&& forall|i: int, j: int|
            0 <= i < j < self.reshares@.len() ==> distinct_reshares(
                #[trigger] self.reshares@[i],
                #[trigger] self.reshares@[j],
            )
        &&& forall|i: int|
            0 <= i < self.reshares@.len() ==> (#[trigger] self.reshares@[i]).id < self.next_id
    }

    pub open spec fn records_wf(self) -> bool {
        forall|i: int, j: int|
            0 <= i < j < self.inbox_records@.len() ==> distinct_records(
                #[trigger] self.inbox_records@[i],
                #[trigger] self.inbox_records@[j],
            )
    }

    /// Well-formedness of the whole store: identifiers and identity keys
    /// are unique in every table, and every local key pair matches.
    pub open spec fn wf(self) -> bool {
        &&& self.instances_wf()
        &&& self.actors_wf()
        &&& self.posts_wf()
        &&& self.post_authors_wf()
        &&& self.follows_wf()
        &&& self.likes_wf()
        &&& self.reshares_wf()
        &&& self.records_wf()
    }

    /// An empty store.
    pub fn new() -> (r: Store)
        ensures
            r.wf(),
            r.instances@.len() == 0,
            r.actors@.len() == 0,
            r.posts@.len() == 0,
            r.post_authors@.len() == 0,
            r.follows@.len() == 0,
            r.likes@.len() == 0,
            r.reshares@.len() == 0,
            r.inbox_records@.len() == 0,
    {
        Store {
            next_id: 1,
            instances: Vec::new(),
            actors: Vec::new(),
            posts: Vec::new(),
            post_authors: Vec::new(),
            follows: Vec::new(),
            likes: Vec::new(),
            reshares: Vec::new(),
            inbox_records: Vec::new(),
        }
    }

    // ------------------------------------------------------------------
    // Membership, at the specification level.
    pub open spec fn has_instance_domain(self, domain: Seq<char>) -> bool {
        exists|i: int| 0 <= i < self.instances@.len() && #[trigger] self.instances@[i].domain@ == domain
    }

    pub open spec fn has_actor_uri(self, uri: Seq<char>) -> bool {
        exists|i: int| 0 <= i < self.actors@.len() && #[trigger] self.actors@[i].uri@ == uri
    }

    pub open spec fn has_actor_id(self, id: u64) -> bool {
        exists|i: int| 0 <= i < self.actors@.len() && #[trigger] self.actors@[i].id == id
    }

    pub open spec fn has_post_uri(self, uri: Seq<char>) -> bool {
        exists|i: int| 0 <= i < self.posts@.len() && #[trigger] self.posts@[i].uri@ == uri
    }

    pub open spec fn has_post_author(self, post_id: u64, author_id: u64) -> bool {
        exists|i: int|
            0 <= i < self.post_authors@.len() && (#[trigger] self.post_authors@[i]).post_id
                == post_id && self.post_authors@[i].author_id == author_id
    }

    pub open spec fn has_follow(self, follower_id: u64, following_id: u64) -> bool {
        exists|i: int|
            0 <= i < self.follows@.len() && (#[trigger] self.follows@[i]).follower_id == follower_id
                && self.follows@[i].following_id == following_id
    }

    pub open spec fn has_like(self, actor_id: u64, post_id: u64) -> bool {
        exists|i: int|
            0 <= i < self.likes@.len() && (#[trigger] self.likes@[i]).actor_id == actor_id
                && self.likes@[i].post_id == post_id
    }

    pub open spec fn has_reshare(self, actor_id: u64, post_id: u64) -> bool {
        exists|i: int|
            0 <= i < self.reshares@.len() && (#[trigger] self.reshares@[i]).actor_id == actor_id
                && self.reshares@[i].post_id == post_id
    }

    /// Whether the dedup ledger already holds an activity URI.
    pub open spec fn has_record(self, uri: Seq<char>) -> bool {
        exists|i: int|
            0 <= i < self.inbox_records@.len() && #[trigger] self.inbox_records@[i].activity_uri@
                == uri
    }

    // ------------------------------------------------------------------
    // Lookups.
    pub fn find_instance_by_domain(&self, domain: &String) -> (r: Option<usize>)
        ensures
            match r {
                Some(i) => i < self.instances@.len() && self.instances@[i as int].domain@
                    == domain@,
                None => !self.has_instance_domain(domain@),
            },
    {
        let mut i: usize = 0;
        while i < self.instances.len()
            invariant
                i <= self.instances@.len(),
                forall|j: int| 0 <= j < i ==> #[trigger] self.instances@[j].domain@ != domain@,
            decreases self.instances@.len() - i,
        {
            if self.instances[i].domain.eq(domain) {
                return Some(i);
            }
            i += 1;
        }
        None
    }

    pub fn find_instance_by_id(&self, id: u64) -> (r: Option<usize>)
        ensures
            match r {
                Some(i) => i < self.instances@.len() && self.instances@[i as int].id == id,
                None => forall|j: int|
                    0 <= j < self.instances@.len() ==> #[trigger] self.instances@[j].id != id,
            },
    {
        let mut i: usize = 0;
        while i < self.instances.len()
            invariant
                i <= self.instances@.len(),
                forall|j: int| 0 <= j < i ==> #[trigger] self.instances@[j].id != id,
            decreases self.instances@.len() - i,
        {
            if self.instances[i].id == id {
                return Some(i);
            }
            i += 1;
        }
        None
    }

    pub fn find_actor_by_uri(&self, uri: &String) -> (r: Option<usize>)
        ensures
            match r {
                Some(i) => i < self.actors@.len() && self.actors@[i as int].uri@ == uri@,
                None => !self.has_actor_uri(uri@),
            },
    {
        let mut i: usize = 0;
        while i < self.actors.len()
            invariant
                i <= self.actors@.len(),
                forall|j: int| 0 <= j < i ==> #[trigger] self.actors@[j].uri@ != uri@,
            decreases self.actors@.len() - i,
        {
            if self.actors[i].uri.eq(uri) {
                return Some(i);
            }
            i += 1;
        }
        None
    }

    pub fn find_actor_by_id(&self, id: u64) -> (r: Option<usize>)
        ensures
            match r {
                Some(i) => i < self.actors@.len() && self.actors@[i as int].id == id,
                None => !self.has_actor_id(id),
            },
    {
        let mut i: usize = 0;
        while i < self.actors.len()
            invariant
                i <= self.actors@.len(),
                forall|j: int| 0 <= j < i ==> #[trigger] self.actors@[j].id != id,
            decreases self.actors@.len() - i,
        {
            if self.actors[i].id == id {
                return Some(i);
            }
            i += 1;
        }
        None
    }

    pub fn find_post_by_uri(&self, uri: &String) -> (r: Option<usize>)
        ensures
            match r {
                Some(i) => i < self.posts@.len() && self.posts@[i as int].uri@ == uri@,
                None => !self.has_post_uri(uri@),
            },
    {
        let mut i: usize = 0;
        while i < self.posts.len()
            invariant
                i <= self.posts@.len(),
                forall|j: int| 0 <= j < i ==> #[trigger] self.posts@[j].uri@ != uri@,
            decreases self.posts@.len() - i,
        {
            if self.posts[i].uri.eq(uri) {
                return Some(i);
            }
            i += 1;
        }
        None
    }

    pub fn find_follow(&self, follower_id: u64, following_id: u64) -> (r: Option<usize>)
        ensures
            match r {
                Some(i) => i < self.follows@.len() && self.follows@[i as int].follower_id
                    == follower_id && self.follows@[i as int].following_id == following_id,
                None => !self.has_follow(follower_id, following_id),
            },
    {
        let mut i: usize = 0;
        while i < self.follows.len()
            invariant
                i <= self.follows@.len(),
                forall|j: int|
                    0 <= j < i ==> !((#[trigger] self.follows@[j]).follower_id == follower_id
                        && self.follows@[j].following_id == following_id),
            decreases self.follows@.len() - i,
        {
            if self.follows[i].follower_id == follower_id && self.follows[i].following_id
                == following_id {
                return Some(i);
            }
            i += 1;
        }
        None
    }

    pub fn find_like(&self, actor_id: u64, post_id: u64) -> (r: Option<usize>)
        ensures
            match r {
                Some(i) => i < self.likes@.len() && self.likes@[i as int].actor_id == actor_id
                    && self.likes@[i as int].post_id == post_id,
                None => !self.has_like(actor_id, post_id),
            },
    {
        let mut i: usize = 0;
        while i < self.likes.len()
            invariant
                i <= self.likes@.len(),
                forall|j: int|
                    0 <= j < i ==> !((#[trigger] self.likes@[j]).actor_id == actor_id
                        && self.likes@[j].post_id == post_id),
            decreases self.likes@.len() - i,
        {
            if self.likes[i].actor_id == actor_id && self.likes[i].post_id == post_id {
                return Some(i);
            }
            i += 1;
        }
        None
    }

    pub fn find_reshare(&self, actor_id: u64, post_id: u64) -> (r: Option<usize>)
        ensures
            match r {
                Some(i) => i < self.reshares@.len() && self.reshares@[i as int].actor_id == actor_id
                    && self.reshares@[i as int].post_id == post_id,
                None => !self.has_reshare(actor_id, post_id),
            },
    {
        let mut i: usize = 0;
        while i < self.reshares.len()
            invariant
                i <= self.reshares@.len(),
                forall|j: int|
                    0 <= j < i ==> !((#[trigger] self.reshares@[j]).actor_id == actor_id
                        && self.reshares@[j].post_id == post_id),
            decreases self.reshares@.len() - i,
        {
            if self.reshares[i].actor_id == actor_id && self.reshares[i].post_id == post_id {
                return Some(i);
            }
            i += 1;
        }
        None
    }

    /// Whether the given actor is an author of the given post.
    pub fn is_author(&self, post_id: u64, actor_id: u64) -> (r: bool)
        ensures
            r == self.has_post_author(post_id, actor_id),
    {
        let mut i: usize = 0;
        while i < self.post_authors.len()
            invariant
                i <= self.post_authors@.len(),
                forall|j: int|
                    0 <= j < i ==> !((#[trigger] self.post_authors@[j]).post_id == post_id
                        && self.post_authors@[j].author_id == actor_id),
            decreases self.post_authors@.len() - i,
        {
            if self.post_authors[i].post_id == post_id && self.post_authors[i].author_id
                == actor_id {
                return true;
            }
            i += 1;
        }
        false
    }

    /// Whether the dedup ledger already holds this activity URI.
    pub fn record_exists(&self, uri: &String) -> (r: bool)
        ensures
            r == self.has_record(uri@),
    {
        let mut i: usize = 0;
        while i < self.inbox_records.len()
            invariant
                i <= self.inbox_records@.len(),
                forall|j: int| 0 <= j < i ==> #[trigger] self.inbox_records@[j].activity_uri@ != uri@,
            decreases self.inbox_records@.len() - i,
        {
            if self.inbox_records[i].activity_uri.eq(uri) {
                return true;
            }
            i += 1;
        }
        false
    }
}

/// All tables of `post` equal those of `pre` except the instances.
pub open spec fn same_but_instances(pre: Store, post: Store) -> bool {
    &&& post.actors == pre.actors
    &&& post.posts == pre.posts
    &&& post.post_authors == pre.post_authors
    &&& post.follows == pre.follows
    &&& post.likes == pre.likes
    &&& post.reshares == pre.reshares
    &&& post.inbox_records == pre.inbox_records
}

/// All tables of `post` equal those of `pre` except the actors and,
/// possibly, the instances.
pub open spec fn same_but_actors_instances(pre: Store, post: Store) -> bool {
    &&& post.posts == pre.posts
    &&& post.post_authors == pre.post_authors
    &&& post.follows == pre.follows
    &&& post.likes == pre.likes
    &&& post.reshares == pre.reshares
    &&& post.inbox_records == pre.inbox_records
}

/// All tables of `post` equal those of `pre` except the posts and their
/// author attributions.
pub open spec fn same_but_posts(pre: Store, post: Store) -> bool {
    &&& post.instances == pre.instances
    &&& post.actors == pre.actors
    &&& post.follows == pre.follows
    &&& post.likes == pre.likes
    &&& post.reshares == pre.reshares
    &&& post.inbox_records == pre.inbox_records
}

/// All tables of `post` equal those of `pre` except the follows.
pub open spec fn same_but_follows(pre: Store, post: Store) -> bool {
    &&& post.instances == pre.instances
    &&& post.actors == pre.actors
    &&& post.posts == pre.posts
    &&& post.post_authors == pre.post_authors
    &&& post.likes == pre.likes
    &&& post.reshares == pre.reshares
    &&& post.inbox_records == pre.inbox_records
}

/// All tables of `post` equal those of `pre` except the likes.
pub open spec fn same_but_likes(pre: Store, post: Store) -> bool {
    &&& post.instances == pre.instances
    &&& post.actors == pre.actors
    &&& post.posts == pre.posts
    &&& post.post_authors == pre.post_authors
    &&& post.follows == pre.follows
    &&& post.reshares == pre.reshares
    &&& post.inbox_records == pre.inbox_records
}

/// All tables of `post` equal those of `pre` except the reshares.
pub open spec fn same_but_reshares(pre: Store, post: Store) -> bool {
    &&& post.instances == pre.instances
    &&& post.actors == pre.actors
    &&& post.posts == pre.posts
    &&& post.post_authors == pre.post_authors
    &&& post.follows == pre.follows
    &&& post.likes == pre.likes
    &&& post.inbox_records == pre.inbox_records
}

/// All tables of `post` equal those of `pre` except the dedup ledger.
pub open spec fn same_but_records(pre: Store, post: Store) -> bool {
    &&& post.instances == pre.instances
    &&& post.actors == pre.actors
    &&& post.posts == pre.posts
    &&& post.post_authors == pre.post_authors
    &&& post.follows == pre.follows
    &&& post.likes == pre.likes
    &&& post.reshares == pre.reshares
}

impl Store {
    /// Find the instance of a domain, creating an unblocked one if absent.
    pub fn ensure_instance(&mut self, domain: &String, local: bool) -> (idx: usize)
        requires
            old(self).wf(),
            old(self).next_id < u64::MAX,
        ensures
            final(self).wf(),
            same_but_instances(*old(self), *final(self)),
            old(self).next_id <= final(self).next_id,
            final(self).next_id <= old(self).next_id + 1,
            idx < final(self).instances@.len(),
            final(self).instances@[idx as int].domain@ == domain@,
            old(self).has_instance_domain(domain@) ==> *final(self) == *old(self),
            !old(self).has_instance_domain(domain@) ==> {
                &&& final(self).instances@ == old(self).instances@.push(
                    final(self).instances@[idx as int],
                )
                &&& final(self).instances@[idx as int].blocked == false
                &&& final(self).instances@[idx as int].local == local
                &&& final(self).next_id == old(self).next_id + 1
            },
            forall|d: Seq<char>|
                #[trigger] final(self).has_instance_domain(d) == (old(self).has_instance_domain(d)
                    || d == domain@),
    {
        if let Some(i) = self.find_instance_by_domain(domain) {
            proof {
                assert(old(self).has_instance_domain(domain@));
            }
            return i;
        }
        let id = self.next_id;
        self.next_id = self.next_id + 1;
        let inst = Instance {
            id,
            domain: domain.clone(),
            name: domain.clone(),
            local,
            blocked: false,
            open_registrations: true,
        };
        self.instances.push(inst);
        proof {
            let post = *self;
            let pre = *old(self);
            assert forall|d: Seq<char>| #[trigger]
                post.has_instance_domain(d) == (pre.has_instance_domain(d) || d == domain@) by {
                if pre.has_instance_domain(d) {
                    let w = choose|i: int|
                        0 <= i < pre.instances@.len() && #[trigger] pre.instances@[i].domain@ == d;
                    assert(post.instances@[w].domain@ == d);
                }
                if d == domain@ {
                    assert(post.instances@[post.instances@.len() - 1].domain@ == d);
                }
                if post.has_instance_domain(d) {
                    let w = choose|i: int|
                        0 <= i < post.instances@.len() && #[trigger] post.instances@[i].domain@
                            == d;
                    if w < pre.instances@.len() {
                        assert(pre.instances@[w].domain@ == d);
                    }
                }
            }
        }
        self.instances.len() - 1
    }

    /// Whether the instance owning `domain` is marked blocked. A domain the
    /// store does not know is not blocked.
    pub open spec fn domain_is_blocked(self, domain: Seq<char>) -> bool {
        exists|i: int|
            0 <= i < self.instances@.len() && (#[trigger] self.instances@[i]).domain@ == domain
                && self.instances@[i].blocked
    }

    /// Whether the instance owning `domain` is marked blocked.
    pub fn domain_blocked(&self, domain: &String) -> (r: bool)
        ensures
            r == self.domain_is_blocked(domain@),
    {
        let mut i: usize = 0;
        while i < self.instances.len()
            invariant
                i <= self.instances@.len(),
                forall|j: int|
                    0 <= j < i ==> !((#[trigger] self.instances@[j]).domain@ == domain@
                        && self.instances@[j].blocked),
            decreases self.instances@.len() - i,
        {
            if self.instances[i].domain.eq(domain) && self.instances[i].blocked {
                return true;
            }
            i += 1;
        }
        false
    }

    /// Flip the blocked flag of an instance, as the moderation page does.
    pub fn toggle_block(&mut self, idx: usize)
        requires
            old(self).wf(),
            idx < old(self).instances@.len(),
        ensures
            final(self).wf(),
            same_but_instances(*old(self), *final(self)),
            final(self).next_id == old(self).next_id,
            final(self).instances@ == old(self).instances@.update(
                idx as int,
                (Instance {
                    blocked: !old(self).instances@[idx as int].blocked,
                    ..old(self).instances@[idx as int]
                }),
            ),
    {
        let old_inst = &self.instances[idx];
        let inst = Instance {
            id: old_inst.id,
            domain: old_inst.domain.clone(),
            name: old_inst.name.clone(),
            local: old_inst.local,
            blocked: !old_inst.blocked,
            open_registrations: old_inst.open_registrations,
        };
        self.instances.set(idx, inst);
    }

    /// Overwrite the local instance's settings, as the administration page
    /// does; the domain, the locality and the blocked flag are untouched.
    pub fn update_instance_settings(
        &mut self,
        idx: usize,
        name: String,
        open_registrations: bool,
    )
        requires
            old(self).wf(),
            idx < old(self).instances@.len(),
        ensures
            final(self).wf(),
            same_but_instances(*old(self), *final(self)),
            final(self).next_id == old(self).next_id,
            final(self).instances@ == old(self).instances@.update(
                idx as int,
                final(self).instances@[idx as int],
            ),
            final(self).instances@[idx as int].name@ == name@,
            final(self).instances@[idx as int].open_registrations == open_registrations,
            final(self).instances@[idx as int].id == old(self).instances@[idx as int].id,
            final(self).instances@[idx as int].domain == old(self).instances@[idx as int].domain,
            final(self).instances@[idx as int].local == old(self).instances@[idx as int].local,
            final(self).instances@[idx as int].blocked == old(self).instances@[idx as int].blocked,
    {
        let prev = &self.instances[idx];
        let inst = Instance {
            id: prev.id,
            domain: prev.domain.clone(),
            name,
            local: prev.local,
            blocked: prev.blocked,
            open_registrations,
        };
        self.instances.set(idx, inst);
    }

    /// Persist a newly resolved remote actor (insert-if-absent is the
    /// caller's duty: the URI must still be unknown).
    pub fn insert_actor_from_doc(&mut self, doc: &ActorDoc, fully_fetched: bool) -> (idx: usize)
        requires
            old(self).wf(),
            !old(self).has_actor_uri(doc.uri@),
            old(self).next_id < u64::MAX - 1,
        ensures
            final(self).wf(),
            old(self).next_id <= final(self).next_id,
            final(self).next_id <= old(self).next_id + 2,
            same_but_actors_instances(*old(self), *final(self)),
            idx == old(self).actors@.len(),
            final(self).actors@ == old(self).actors@.push(final(self).actors@[idx as int]),
            ({
                let a = final(self).actors@[idx as int];
                &&& a.uri@ == doc.uri@
                &&& a.username@ == doc.username@
                &&& a.public_key@ == doc.public_key@
                &&& a.secret_key is None
                &&& a.inbox_uri@ == doc.inbox_uri@
                &&& a.fully_fetched == fully_fetched
                &&& a.tombstoned == false
                &&& a.role == Role::Normal
                &&& match (a.shared_inbox_uri, doc.shared_inbox_uri) {
                    (Some(s), Some(d)) => s@ == d@,
                    (None, None) => true,
                    _ => false,
                }
            }),
            final(self).has_actor_uri(doc.uri@),
            forall|u: Seq<char>|
                #[trigger] final(self).has_actor_uri(u) == (old(self).has_actor_uri(u) || u
                    == doc.uri@),
            final(self).has_instance_domain(doc.domain@),
            exists|j: int|
                0 <= j < final(self).instances@.len() && (#[trigger] final(self).instances@[j]).domain@
                    == doc.domain@ && final(self).actors@[idx as int].instance_id
                    == final(self).instances@[j].id,
    {
        let inst_idx = self.ensure_instance(&doc.domain, false);
        let ghost mid = *self;
        proof {
            lemma_same_actors_same_membership(*old(self), mid);
        }
        let instance_id = self.instances[inst_idx].id;
        let id = self.next_id;
        self.next_id = self.next_id + 1;
        let shared = match &doc.shared_inbox_uri {
            Some(s) => Some(s.clone()),
            None => None,
        };
        let actor = Actor {
            id,
            uri: doc.uri.clone(),
            username: doc.username.clone(),
            public_key: clone_bytes(&doc.public_key),
            secret_key: None,
            inbox_uri: doc.inbox_uri.clone(),
            shared_inbox_uri: shared,
            instance_id,
            role: Role::Normal,
            fully_fetched,
            tombstoned: false,
        };
        let idx = self.actors.len();
        self.actors.push(actor);
        proof {
            lemma_wf_after_actor_push(mid, *self, idx as int);
            lemma_same_actors_same_membership(*old(self), mid);
            assert(self.instances@[inst_idx as int].domain@ == doc.domain@);
            assert(self.actors@[idx as int].instance_id == self.instances@[inst_idx as int].id);
        }
        idx
    }

    /// Register a local account with its key pair.
    pub fn insert_local_actor(
        &mut self,
        uri: String,
        username: String,
        inbox_uri: String,
        domain: &String,
        secret_key: Vec<u8>,
        role: Role,
    ) -> (idx: usize)
        requires
            old(self).wf(),
            !old(self).has_actor_uri(uri@),
            secret_key@.len() == 32,
            old(self).next_id < u64::MAX - 1,
        ensures
            final(self).wf(),
            old(self).next_id <= final(self).next_id,
            final(self).next_id <= old(self).next_id + 2,
            same_but_actors_instances(*old(self), *final(self)),
            idx == old(self).actors@.len(),
            final(self).actors@ == old(self).actors@.push(final(self).actors@[idx as int]),
            ({
                let a = final(self).actors@[idx as int];
                &&& a.uri@ == uri@
                &&& a.username@ == username@
                &&& a.secret_key == Some(secret_key)
                &&& a.public_key@ == public_key_of(secret_key@)
                &&& a.inbox_uri@ == inbox_uri@
                &&& a.role == role
                &&& a.tombstoned == false
            }),
            final(self).has_actor_uri(uri@),
            forall|u: Seq<char>|
                #[trigger] final(self).has_actor_uri(u) == (old(self).has_actor_uri(u) || u
                    == uri@),
    {
        let inst_idx = self.ensure_instance(domain, true);
        let ghost mid = *self;
        proof {
            lemma_same_actors_same_membership(*old(self), mid);
        }
        let instance_id = self.instances[inst_idx].id;
        let id = self.next_id;
        self.next_id = self.next_id + 1;
        let public_key = derive_public_key(secret_key.as_slice());
        let actor = Actor {
            id,
            uri,
            username,
            public_key,
            secret_key: Some(secret_key),
            inbox_uri,
            shared_inbox_uri: None,
            instance_id,
            role,
            fully_fetched: true,
            tombstoned: false,
        };
        let idx = self.actors.len();
        self.actors.push(actor);
        proof {
            lemma_wf_after_actor_push(mid, *self, idx as int);
            lemma_same_actors_same_membership(*old(self), mid);
        }
        idx
    }

    /// Authoritative refresh: overwrite the mutable fields of a stored
    /// remote actor (key material, display fields, endpoints) while
    /// preserving its identity and its relations.
    pub fn refresh_actor_from_doc(&mut self, idx: usize, doc: &ActorDoc)
        requires
            old(self).wf(),
            idx < old(self).actors@.len(),
            old(self).actors@[idx as int].secret_key is None,
        ensures
            final(self).wf(),
            same_but_actors_instances(*old(self), *final(self)),
            final(self).instances == old(self).instances,
            final(self).next_id == old(self).next_id,
            final(self).actors@ == old(self).actors@.update(
                idx as int,
                final(self).actors@[idx as int],
            ),
            ({
                let a = final(self).actors@[idx as int];
                let b = old(self).actors@[idx as int];
                &&& a.id == b.id
                &&& a.uri == b.uri
                &&& a.instance_id == b.instance_id
                &&& a.role == b.role
                &&& a.tombstoned == b.tombstoned
                &&& a.secret_key is None
                &&& a.public_key@ == doc.public_key@
                &&& a.username@ == doc.username@
                &&& a.inbox_uri@ == doc.inbox_uri@
                &&& a.fully_fetched == true
            }),
    {
        let shared = match &doc.shared_inbox_uri {
            Some(s) => Some(s.clone()),
            None => None,
        };
        let prev = &self.actors[idx];
        let actor = Actor {
            id: prev.id,
            uri: prev.uri.clone(),
            username: doc.username.clone(),
            public_key: clone_bytes(&doc.public_key),
            secret_key: None,
            inbox_uri: doc.inbox_uri.clone(),
            shared_inbox_uri: shared,
            instance_id: prev.instance_id,
            role: prev.role,
            fully_fetched: true,
            tombstoned: prev.tombstoned,
        };
        self.actors.set(idx, actor);
        proof {
            lemma_wf_after_actor_update(*old(self), *self, idx as int);
        }
    }

    /// Tombstone an actor in place; identity, key material and relations
    /// are preserved. Idempotent when already tombstoned.
    pub fn tombstone_actor_at(&mut self, idx: usize)
        requires
            old(self).wf(),
            idx < old(self).actors@.len(),
        ensures
            final(self).wf(),
            final(self).instances == old(self).instances,
            final(self).posts == old(self).posts,
            final(self).post_authors == old(self).post_authors,
            final(self).follows == old(self).follows,
            final(self).likes == old(self).likes,
            final(self).reshares == old(self).reshares,
            final(self).inbox_records == old(self).inbox_records,
            final(self).next_id == old(self).next_id,
            final(self).actors@ == old(self).actors@.update(
                idx as int,
                final(self).actors@[idx as int],
            ),
            ({
                let a = final(self).actors@[idx as int];
                let b = old(self).actors@[idx as int];
                &&& a.tombstoned == true
                &&& a.id == b.id
                &&& a.uri == b.uri
                &&& a.username == b.username
                &&& a.public_key@ == b.public_key@
                &&& match (a.secret_key, b.secret_key) {
                    (Some(x), Some(y)) => x@ == y@,
                    (None, None) => true,
                    _ => false,
                }
                &&& a.inbox_uri == b.inbox_uri
                &&& a.shared_inbox_uri == b.shared_inbox_uri
                &&& a.instance_id == b.instance_id
                &&& a.role == b.role
            }),
    {
        proof {
            assert((old(self).actors@[idx as int]).id < old(self).next_id);
        }
        let prev = &self.actors[idx];
        let secret_key = match &prev.secret_key {
            Some(k) => Some(clone_bytes(k)),
            None => None,
        };
        let shared = match &prev.shared_inbox_uri {
            Some(u) => Some(u.clone()),
            None => None,
        };
        let actor = Actor {
            id: prev.id,
            uri: prev.uri.clone(),
            username: prev.username.clone(),
            public_key: clone_bytes(&prev.public_key),
            secret_key,
            inbox_uri: prev.inbox_uri.clone(),
            shared_inbox_uri: shared,
            instance_id: prev.instance_id,
            role: prev.role,
            fully_fetched: prev.fully_fetched,
            tombstoned: true,
        };
        self.actors.set(idx, actor);
        proof {
            assert((old(self).actors@[idx as int]).keys_wf());
            lemma_wf_after_actor_update(*old(self), *self, idx as int);
        }
    }

    /// Rotate a local account's key pair: the new secret replaces the old
    /// one and the public key is derived from it; identity and relations
    /// are untouched.
    pub fn rotate_local_key(&mut self, idx: usize, new_secret: Vec<u8>)
        requires
            old(self).wf(),
            idx < old(self).actors@.len(),
            new_secret@.len() == 32,
        ensures
            final(self).wf(),
            final(self).instances == old(self).instances,
            final(self).posts == old(self).posts,
            final(self).post_authors == old(self).post_authors,
            final(self).follows == old(self).follows,
            final(self).likes == old(self).likes,
            final(self).reshares == old(self).reshares,
            final(self).inbox_records == old(self).inbox_records,
            final(self).next_id == old(self).next_id,
            final(self).actors@ == old(self).actors@.update(
                idx as int,
                final(self).actors@[idx as int],
            ),
            ({
                let a = final(self).actors@[idx as int];
                let b = old(self).actors@[idx as int];
                &&& a.secret_key == Some(new_secret)
                &&& a.public_key@ == public_key_of(new_secret@)
                &&& a.id == b.id
                &&& a.uri == b.uri
                &&& a.username == b.username
                &&& a.inbox_uri == b.inbox_uri
                &&& a.instance_id == b.instance_id
                &&& a.role == b.role
                &&& a.tombstoned == b.tombstoned
            }),
    {
        proof {
            assert((old(self).actors@[idx as int]).id < old(self).next_id);
        }
        let public_key = derive_public_key(new_secret.as_slice());
        let prev = &self.actors[idx];
        let shared = match &prev.shared_inbox_uri {
            Some(u) => Some(u.clone()),
            None => None,
        };
        let actor = Actor {
            id: prev.id,
            uri: prev.uri.clone(),
            username: prev.username.clone(),
            public_key,
            secret_key: Some(new_secret),
            inbox_uri: prev.inbox_uri.clone(),
            shared_inbox_uri: shared,
            instance_id: prev.instance_id,
            role: prev.role,
            fully_fetched: prev.fully_fetched,
            tombstoned: prev.tombstoned,
        };
        self.actors.set(idx, actor);
        proof {
            lemma_wf_after_actor_update(*old(self), *self, idx as int);
        }
    }

    /// Persist a post with its author attribution.
    pub fn insert_post(
        &mut self,
        uri: String,
        title: String,
        content: String,
        published: bool,
        author_id: u64,
    ) -> (idx: usize)
        requires
            old(self).wf(),
            !old(self).has_post_uri(uri@),
            old(self).has_actor_id(author_id),
            old(self).next_id < u64::MAX - 1,
        ensures
            final(self).wf(),
            old(self).next_id <= final(self).next_id,
            final(self).next_id <= old(self).next_id + 2,
            same_but_posts(*old(self), *final(self)),
            idx == old(self).posts@.len(),
            final(self).posts@ == old(self).posts@.push(final(self).posts@[idx as int]),
            ({
                let p = final(self).posts@[idx as int];
                &&& p.uri@ == uri@
                &&& p.title@ == title@
                &&& p.content@ == content@
                &&& p.published == published
                &&& p.tombstoned == false
            }),
            final(self).post_authors@ == old(self).post_authors@.push(
                final(self).post_authors@[old(self).post_authors@.len() as int],
            ),
            final(self).has_post_author(final(self).posts@[idx as int].id, author_id),
            forall|u: Seq<char>|
                #[trigger] final(self).has_post_uri(u) == (old(self).has_post_uri(u) || u == uri@),
            forall|p: u64, a: u64|
                #[trigger] final(self).has_post_author(p, a) == (old(self).has_post_author(p, a)
                    || (p == final(self).posts@[idx as int].id && a == author_id)),
    {
        let post_id = self.next_id;
        let pa_id = self.next_id + 1;
        self.next_id = self.next_id + 2;
        let post = Post { id: post_id, uri, title, content, published, tombstoned: false };
        let idx = self.posts.len();
        self.posts.push(post);
        let ghost mid = *self;
        proof {
            lemma_wf_after_post_push(*old(self), mid, idx as int);
        }
        let pa = PostAuthor { id: pa_id, post_id, author_id };
        self.post_authors.push(pa);
        proof {
            assert(self.post_authors@ == mid.post_authors@.push(pa));
            assert forall|i: int| 0 <= i < mid.post_authors@.len() implies
                !((#[trigger] mid.post_authors@[i]).post_id == post_id
                    && mid.post_authors@[i].author_id == author_id) by {
                assert((old(self).post_authors@[i]).id < old(self).next_id
                    && old(self).post_authors@[i].post_id < old(self).next_id
                    && old(self).post_authors@[i].author_id < old(self).next_id);
            }
            assert(!mid.has_post_author(post_id, author_id));
            let w = choose|i: int|
                0 <= i < old(self).actors@.len() && #[trigger] old(self).actors@[i].id == author_id;
            assert(old(self).actors@[w].id < old(self).next_id);
            lemma_wf_after_post_author_push(mid, *self);
            lemma_same_posts_same_membership(mid, *self);
            assert forall|u: Seq<char>| #[trigger]
                self.has_post_uri(u) == (old(self).has_post_uri(u) || u == uri@) by {
                assert(self.has_post_uri(u) == mid.has_post_uri(u));
                assert(mid.has_post_uri(u) == (old(self).has_post_uri(u) || u
                    == mid.posts@[idx as int].uri@));
                assert(mid.posts@[idx as int].uri@ == uri@);
            }
        }
        idx
    }

    /// Overwrite a post's mutable fields, preserving its identity.
    pub fn replace_post_fields(
        &mut self,
        idx: usize,
        title: String,
        content: String,
        published: bool,
        tombstoned: bool,
    )
        requires
            old(self).wf(),
            idx < old(self).posts@.len(),
        ensures
            final(self).wf(),
            same_but_posts(*old(self), *final(self)),
            final(self).post_authors == old(self).post_authors,
            final(self).next_id == old(self).next_id,
            final(self).posts@ == old(self).posts@.update(
                idx as int,
                (Post {
                    id: old(self).posts@[idx as int].id,
                    uri: old(self).posts@[idx as int].uri,
                    title: final(self).posts@[idx as int].title,
                    content: final(self).posts@[idx as int].content,
                    published,
                    tombstoned,
                }),
            ),
            final(self).posts@[idx as int].title@ == title@,
            final(self).posts@[idx as int].content@ == content@,
    {
        let prev = &self.posts[idx];
        let post = Post {
            id: prev.id,
            uri: prev.uri.clone(),
            title,
            content,
            published,
            tombstoned,
        };
        self.posts.set(idx, post);
        proof {
            lemma_wf_after_post_update(*old(self), *self, idx as int);
            assert(final(self).posts@ =~= old(self).posts@.update(
                idx as int,
                final(self).posts@[idx as int],
            ));
        }
    }

    /// Record a follow relation; the pair must not exist yet.
    pub fn insert_follow(&mut self, follower_id: u64, following_id: u64, ap_url: String)
        requires
            old(self).wf(),
            !old(self).has_follow(follower_id, following_id),
            old(self).next_id < u64::MAX,
        ensures
            final(self).wf(),
            old(self).next_id <= final(self).next_id,
            final(self).next_id <= old(self).next_id + 1,
            same_but_follows(*old(self), *final(self)),
            final(self).follows@ == old(self).follows@.push(
                final(self).follows@[old(self).follows@.len() as int],
            ),
            ({
                let f = final(self).follows@[old(self).follows@.len() as int];
                &&& f.follower_id == follower_id
                &&& f.following_id == following_id
                &&& f.ap_url@ == ap_url@
            }),
            forall|a: u64, b: u64|
                #[trigger] final(self).has_follow(a, b) == (old(self).has_follow(a, b) || (a
                    == follower_id && b == following_id)),
    {
        let id = self.next_id;
        self.next_id = self.next_id + 1;
        self.follows.push(Follow { id, follower_id, following_id, ap_url });
        proof {
            lemma_wf_after_follow_push(*old(self), *self);
        }
    }

    /// Reverse a follow relation.
    pub fn remove_follow_at(&mut self, idx: usize)
        requires
            old(self).wf(),
            idx < old(self).follows@.len(),
        ensures
            final(self).wf(),
            same_but_follows(*old(self), *final(self)),
            final(self).next_id == old(self).next_id,
            final(self).follows@ == old(self).follows@.remove(idx as int),
            !final(self).has_follow(
                old(self).follows@[idx as int].follower_id,
                old(self).follows@[idx as int].following_id,
            ),
            forall|a: u64, b: u64|
                !(a == old(self).follows@[idx as int].follower_id && b == old(
                    self,
                ).follows@[idx as int].following_id) ==> #[trigger] final(self).has_follow(a, b)
                    == old(self).has_follow(a, b),
    {
        self.follows.remove(idx);
        proof {
            lemma_wf_after_follow_remove(*old(self), *self, idx as int);
        }
    }

    /// Record a like; the pair must not exist yet.
    pub fn insert_like(&mut self, actor_id: u64, post_id: u64)
        requires
            old(self).wf(),
            !old(self).has_like(actor_id, post_id),
            old(self).next_id < u64::MAX,
        ensures
            final(self).wf(),
            old(self).next_id <= final(self).next_id,
            final(self).next_id <= old(self).next_id + 1,
            same_but_likes(*old(self), *final(self)),
            final(self).likes@ == old(self).likes@.push(
                final(self).likes@[old(self).likes@.len() as int],
            ),
            final(self).likes@[old(self).likes@.len() as int].actor_id == actor_id,
            final(self).likes@[old(self).likes@.len() as int].post_id == post_id,
            forall|a: u64, p: u64|
                #[trigger] final(self).has_like(a, p) == (old(self).has_like(a, p) || (a == actor_id
                    && p == post_id)),
    {
        let id = self.next_id;
        self.next_id = self.next_id + 1;
        self.likes.push(Like { id, actor_id, post_id });
        proof {
            lemma_wf_after_like_push(*old(self), *self);
        }
    }

    /// Reverse a like.
    pub fn remove_like_at(&mut self, idx: usize)
        requires
            old(self).wf(),
            idx < old(self).likes@.len(),
        ensures
            final(self).wf(),
            same_but_likes(*old(self), *final(self)),
            final(self).next_id == old(self).next_id,
            final(self).likes@ == old(self).likes@.remove(idx as int),
            !final(self).has_like(
                old(self).likes@[idx as int].actor_id,
                old(self).likes@[idx as int].post_id,
            ),
            forall|a: u64, p: u64|
                !(a == old(self).likes@[idx as int].actor_id && p == old(
                    self,
                ).likes@[idx as int].post_id) ==> #[trigger] final(self).has_like(a, p) == old(
                    self,
                ).has_like(a, p),
    {
        self.likes.remove(idx);
        proof {
            lemma_wf_after_like_remove(*old(self), *self, idx as int);
        }
    }

    /// Record a reshare; the pair must not exist yet.
    pub fn insert_reshare(&mut self, actor_id: u64, post_id: u64)
        requires
            old(self).wf(),
            !old(self).has_reshare(actor_id, post_id),
            old(self).next_id < u64::MAX,
        ensures
            final(self).wf(),
            old(self).next_id <= final(self).next_id,
            final(self).next_id <= old(self).next_id + 1,
            same_but_reshares(*old(self), *final(self)),
            final(self).reshares@ == old(self).reshares@.push(
                final(self).reshares@[old(self).reshares@.len() as int],
            ),
            final(self).reshares@[old(self).reshares@.len() as int].actor_id == actor_id,
            final(self).reshares@[old(self).reshares@.len() as int].post_id == post_id,
            forall|a: u64, p: u64|
                #[trigger] final(self).has_reshare(a, p) == (old(self).has_reshare(a, p) || (a
                    == actor_id && p == post_id)),
    {
        let id = self.next_id;
        self.next_id = self.next_id + 1;
        self.reshares.push(Reshare { id, actor_id, post_id });
        proof {
            lemma_wf_after_reshare_push(*old(self), *self);
        }
    }

    /// Reverse a reshare.
    pub fn remove_reshare_at(&mut self, idx: usize)
        requires
            old(self).wf(),
            idx < old(self).reshares@.len(),
        ensures
            final(self).wf(),
            same_but_reshares(*old(self), *final(self)),
            final(self).next_id == old(self).next_id,
            final(self).reshares@ == old(self).reshares@.remove(idx as int),
            !final(self).has_reshare(
                old(self).reshares@[idx as int].actor_id,
                old(self).reshares@[idx as int].post_id,
            ),
            forall|a: u64, p: u64|
                !(a == old(self).reshares@[idx as int].actor_id && p == old(
                    self,
                ).reshares@[idx as int].post_id) ==> #[trigger] final(self).has_reshare(a, p)
                    == old(self).has_reshare(a, p),
    {
        self.reshares.remove(idx);
        proof {
            lemma_wf_after_reshare_remove(*old(self), *self, idx as int);
        }
    }

    /// Write the dedup ledger entry for an applied activity.
    pub fn insert_record(&mut self, uri: String)
        requires
            old(self).wf(),
            !old(self).has_record(uri@),
        ensures
            final(self).wf(),
            same_but_records(*old(self), *final(self)),
            final(self).next_id == old(self).next_id,
            final(self).inbox_records@ == old(self).inbox_records@.push(
                (InboxRecord { activity_uri: final(self).inbox_records@.last().activity_uri }),
            ),
            final(self).inbox_records@.last().activity_uri@ == uri@,
            forall|u: Seq<char>|
                #[trigger] final(self).has_record(u) == (old(self).has_record(u) || u == uri@),
    {
        self.inbox_records.push(InboxRecord { activity_uri: uri });
        proof {
            lemma_wf_after_record_push(*old(self), *self);
        }
    }

    /// Identifiers of every actor following `actor_id`, each exactly once.
    pub fn followers_of(&self, actor_id: u64) -> (r: Vec<u64>)
        requires
            self.wf(),
        ensures
            forall|k: int| 0 <= k < r@.len() ==> self.has_follow(#[trigger] r@[k], actor_id),
            forall|f: u64| #[trigger] self.has_follow(f, actor_id) ==> r@.contains(f),
            forall|k: int, l: int| 0 <= k < l < r@.len() ==> r@[k] != r@[l],
    {
        let mut r: Vec<u64> = Vec::new();
        let mut i: usize = 0;
        while i < self.follows.len()
            invariant
                self.wf(),
                i <= self.follows@.len(),
                forall|k: int| 0 <= k < r@.len() ==> self.has_follow(#[trigger] r@[k], actor_id),
                forall|j: int|
                    0 <= j < i && (#[trigger] self.follows@[j]).following_id == actor_id
                        ==> r@.contains(self.follows@[j].follower_id),
                forall|k: int, l: int| 0 <= k < l < r@.len() ==> r@[k] != r@[l],
            decreases self.follows@.len() - i,
        {
            let ghost old_r = r@;
            if self.follows[i].following_id == actor_id {
                let id = self.follows[i].follower_id;
                if !vec_contains_u64(&r, id) {
                    r.push(id);
                    proof {
                        assert((self.follows@[i as int]).follower_id == id
                            && self.follows@[i as int].following_id == actor_id);
                        assert(self.has_follow(id, actor_id));
                        assert(r@[r@.len() - 1] == id);
                    }
                }
                proof {
                    assert(r@.contains(id)) by {
                        if old_r.contains(id) {
                            let k = choose|k: int| 0 <= k < old_r.len() && old_r[k] == id;
                            assert(r@[k] == id);
                        } else {
                            assert(r@[r@.len() - 1] == id);
                        }
                    }
                }
            }
            proof {
                assert forall|j: int|
                    0 <= j < i + 1 && (#[trigger] self.follows@[j]).following_id == actor_id
                        implies r@.contains(self.follows@[j].follower_id) by {
                    if j < i {
                        let k = choose|k: int|
                            0 <= k < old_r.len() && old_r[k] == self.follows@[j].follower_id;
                        assert(r@[k] == self.follows@[j].follower_id);
                    }
                }
            }
            i += 1;
        }
        proof {
            assert forall|f: u64| #[trigger] self.has_follow(f, actor_id) implies r@.contains(
                f,
            ) by {
                let j = choose|j: int|
                    0 <= j < self.follows@.len() && (#[trigger] self.follows@[j]).follower_id == f
                        && self.follows@[j].following_id == actor_id;
                assert(r@.contains(self.follows@[j].follower_id));
            }
        }
        r
    }
}

/// Whether a vector of identifiers holds the given one.
pub fn vec_contains_u64(v: &Vec<u64>, x: u64) -> (r: bool)
    ensures
        r == v@.contains(x),
{
    let mut i: usize = 0;
    while i < v.len()
        invariant
            i <= v@.len(),
            forall|j: int| 0 <= j < i ==> v@[j] != x,
        decreases v@.len() - i,
    {
        if v[i] == x {
            return true;
        }
        i += 1;
    }
    false
}

// ----------------------------------------------------------------------
// Preservation lemmas: each states that one table operation keeps the
// store well formed, and how it changes the membership predicates.
/// Two stores with the same actor table agree on actor membership.
pub proof fn lemma_same_actors_same_membership(s1: Store, s2: Store)
    requires
        s1.actors == s2.actors,
    ensures
        forall|u: Seq<char>| #[trigger] s1.has_actor_uri(u) == s2.has_actor_uri(u),
        forall|id: u64| #[trigger] s1.has_actor_id(id) == s2.has_actor_id(id),
{
    assert forall|u: Seq<char>| #[trigger] s1.has_actor_uri(u) == s2.has_actor_uri(u) by {
        if s1.has_actor_uri(u) {
            let i = choose|i: int| 0 <= i < s1.actors@.len() && #[trigger] s1.actors@[i].uri@ == u;
            assert(s2.actors@[i].uri@ == u);
        }
        if s2.has_actor_uri(u) {
            let i = choose|i: int| 0 <= i < s2.actors@.len() && #[trigger] s2.actors@[i].uri@ == u;
            assert(s1.actors@[i].uri@ == u);
        }
    }
    assert forall|id: u64| #[trigger] s1.has_actor_id(id) == s2.has_actor_id(id) by {
        if s1.has_actor_id(id) {
            let i = choose|i: int| 0 <= i < s1.actors@.len() && #[trigger] s1.actors@[i].id == id;
            assert(s2.actors@[i].id == id);
        }
        if s2.has_actor_id(id) {
            let i = choose|i: int| 0 <= i < s2.actors@.len() && #[trigger] s2.actors@[i].id == id;
            assert(s1.actors@[i].id == id);
        }
    }
}

/// Two stores with the same post table agree on post membership.
pub proof fn lemma_same_posts_same_membership(s1: Store, s2: Store)
    requires
        s1.posts == s2.posts,
    ensures
        forall|u: Seq<char>| #[trigger] s1.has_post_uri(u) == s2.has_post_uri(u),
{
    assert forall|u: Seq<char>| #[trigger] s1.has_post_uri(u) == s2.has_post_uri(u) by {
        if s1.has_post_uri(u) {
            let i = choose|i: int| 0 <= i < s1.posts@.len() && #[trigger] s1.posts@[i].uri@ == u;
            assert(s2.posts@[i].uri@ == u);
        }
        if s2.has_post_uri(u) {
            let i = choose|i: int| 0 <= i < s2.posts@.len() && #[trigger] s2.posts@[i].uri@ == u;
            assert(s1.posts@[i].uri@ == u);
        }
    }
}

/// Two stores with the same relation tables agree on the relation
/// membership predicates, table by table.
pub proof fn lemma_same_relations_same_membership(s1: Store, s2: Store)
    ensures
        s1.follows == s2.follows ==> forall|a: u64, b: u64|
            #![trigger s1.has_follow(a, b)]
            #![trigger s2.has_follow(a, b)]
            s1.has_follow(a, b) == s2.has_follow(a, b),
        s1.likes == s2.likes ==> forall|a: u64, p: u64|
            #![trigger s1.has_like(a, p)]
            #![trigger s2.has_like(a, p)]
            s1.has_like(a, p) == s2.has_like(a, p),
        s1.reshares == s2.reshares ==> forall|a: u64, p: u64|
            #![trigger s1.has_reshare(a, p)]
            #![trigger s2.has_reshare(a, p)]
            s1.has_reshare(a, p) == s2.has_reshare(a, p),
        s1.post_authors == s2.post_authors ==> forall|p: u64, a: u64|
            #![trigger s1.has_post_author(p, a)]
            #![trigger s2.has_post_author(p, a)]
            s1.has_post_author(p, a) == s2.has_post_author(p, a),
        s1.inbox_records == s2.inbox_records ==> forall|u: Seq<char>|
            #![trigger s1.has_record(u)]
            #![trigger s2.has_record(u)]
            s1.has_record(u) == s2.has_record(u),
        s1.instances == s2.instances ==> forall|d: Seq<char>|
            #![trigger s1.has_instance_domain(d)]
            #![trigger s2.has_instance_domain(d)]
            s1.has_instance_domain(d) == s2.has_instance_domain(d),
{
    if s1.follows == s2.follows {
        assert forall|a: u64, b: u64| #[trigger] s1.has_follow(a, b) == s2.has_follow(a, b) by {
            if s1.has_follow(a, b) {
                let i = choose|i: int|
                    0 <= i < s1.follows@.len() && (#[trigger] s1.follows@[i]).follower_id == a
                        && s1.follows@[i].following_id == b;
                assert(s2.follows@[i].follower_id == a && s2.follows@[i].following_id == b);
            }
            if s2.has_follow(a, b) {
                let i = choose|i: int|
                    0 <= i < s2.follows@.len() && (#[trigger] s2.follows@[i]).follower_id == a
                        && s2.follows@[i].following_id == b;
                assert(s1.follows@[i].follower_id == a && s1.follows@[i].following_id == b);
            }
        }
    }
    if s1.likes == s2.likes {
        assert forall|a: u64, p: u64| #[trigger] s1.has_like(a, p) == s2.has_like(a, p) by {
            if s1.has_like(a, p) {
                let i = choose|i: int|
                    0 <= i < s1.likes@.len() && (#[trigger] s1.likes@[i]).actor_id == a
                        && s1.likes@[i].post_id == p;
                assert(s2.likes@[i].actor_id == a && s2.likes@[i].post_id == p);
            }
            if s2.has_like(a, p) {
                let i = choose|i: int|
                    0 <= i < s2.likes@.len() && (#[trigger] s2.likes@[i]).actor_id == a
                        && s2.likes@[i].post_id == p;
                assert(s1.likes@[i].actor_id == a && s1.likes@[i].post_id == p);
            }
        }
    }
    if s1.reshares == s2.reshares {
        assert forall|a: u64, p: u64| #[trigger] s1.has_reshare(a, p) == s2.has_reshare(a, p) by {
            if s1.has_reshare(a, p) {
                let i = choose|i: int|
                    0 <= i < s1.reshares@.len() && (#[trigger] s1.reshares@[i]).actor_id == a
                        && s1.reshares@[i].post_id == p;
                assert(s2.reshares@[i].actor_id == a && s2.reshares@[i].post_id == p);
            }
            if s2.has_reshare(a, p) {
                let i = choose|i: int|
                    0 <= i < s2.reshares@.len() && (#[trigger] s2.reshares@[i]).actor_id == a
                        && s2.reshares@[i].post_id == p;
                assert(s1.reshares@[i].actor_id == a && s1.reshares@[i].post_id == p);
            }
        }
    }
    if s1.post_authors == s2.post_authors {
        assert forall|p: u64, a: u64| #[trigger]
            s1.has_post_author(p, a) == s2.has_post_author(p, a) by {
            if s1.has_post_author(p, a) {
                let i = choose|i: int|
                    0 <= i < s1.post_authors@.len() && (#[trigger] s1.post_authors@[i]).post_id == p
                        && s1.post_authors@[i].author_id == a;
                assert(s2.post_authors@[i].post_id == p && s2.post_authors@[i].author_id == a);
            }
            if s2.has_post_author(p, a) {
                let i = choose|i: int|
                    0 <= i < s2.post_authors@.len() && (#[trigger] s2.post_authors@[i]).post_id == p
                        && s2.post_authors@[i].author_id == a;
                assert(s1.post_authors@[i].post_id == p && s1.post_authors@[i].author_id == a);
            }
        }
    }
    if s1.inbox_records == s2.inbox_records {
        assert forall|u: Seq<char>| #[trigger] s1.has_record(u) == s2.has_record(u) by {
            if s1.has_record(u) {
                let i = choose|i: int|
                    0 <= i < s1.inbox_records@.len() && #[trigger] s1.inbox_records@[i].activity_uri@
                        == u;
                assert(s2.inbox_records@[i].activity_uri@ == u);
            }
            if s2.has_record(u) {
                let i = choose|i: int|
                    0 <= i < s2.inbox_records@.len() && #[trigger] s2.inbox_records@[i].activity_uri@
                        == u;
                assert(s1.inbox_records@[i].activity_uri@ == u);
            }
        }
    }
    if s1.instances == s2.instances {
        assert forall|d: Seq<char>| #[trigger]
            s1.has_instance_domain(d) == s2.has_instance_domain(d) by {
            if s1.has_instance_domain(d) {
                let i = choose|i: int|
                    0 <= i < s1.instances@.len() && #[trigger] s1.instances@[i].domain@ == d;
                assert(s2.instances@[i].domain@ == d);
            }
            if s2.has_instance_domain(d) {
                let i = choose|i: int|
                    0 <= i < s2.instances@.len() && #[trigger] s2.instances@[i].domain@ == d;
                assert(s1.instances@[i].domain@ == d);
            }
        }
    }
}

/// The well-formedness of every table a mutation does not touch carries
/// over, as long as the id counter does not shrink.
pub proof fn lemma_untouched_tables_wf(pre: Store, post: Store)
    requires
        pre.wf(),
        pre.next_id <= post.next_id,
    ensures
        post.instances == pre.instances ==> post.instances_wf(),
        post.actors == pre.actors ==> post.actors_wf(),
        post.posts == pre.posts ==> post.posts_wf(),
        post.post_authors == pre.post_authors ==> post.post_authors_wf(),
        post.follows == pre.follows ==> post.follows_wf(),
        post.likes == pre.likes ==> post.likes_wf(),
        post.reshares == pre.reshares ==> post.reshares_wf(),
        post.inbox_records == pre.inbox_records ==> post.records_wf(),
{
}

/// Pushing a fresh actor keeps the store well formed.
pub proof fn lemma_wf_after_actor_push(pre: Store, post: Store, idx: int)
    requires
        pre.wf(),
        post.instances == pre.instances,
        post.posts == pre.posts,
        post.post_authors == pre.post_authors,
        post.follows == pre.follows,
        post.likes == pre.likes,
        post.reshares == pre.reshares,
        post.inbox_records == pre.inbox_records,
        idx == pre.actors@.len(),
        post.actors@ == pre.actors@.push(post.actors@[idx]),
        pre.next_id <= post.actors@[idx].id,
        post.actors@[idx].id < post.next_id,
        pre.next_id <= post.next_id,
        !pre.has_actor_uri(post.actors@[idx].uri@),
        post.actors@[idx].keys_wf(),
    ensures
        post.wf(),
        forall|u: Seq<char>|
            #[trigger] post.has_actor_uri(u) == (pre.has_actor_uri(u) || u
                == post.actors@[idx].uri@),
{
    let a = post.actors@[idx];
    assert forall|i: int| 0 <= i < pre.actors@.len() implies (#[trigger] pre.actors@[i]).uri@
        != a.uri@ by {
        if pre.actors@[i].uri@ == a.uri@ {
            assert(pre.has_actor_uri(a.uri@));
        }
    }
    assert forall|i: int, j: int| 0 <= i < j < post.actors@.len() implies distinct_actors(
        #[trigger] post.actors@[i],
        #[trigger] post.actors@[j],
    ) by {
        if j < pre.actors@.len() {
            assert(distinct_actors(pre.actors@[i], pre.actors@[j]));
        } else {
            assert(post.actors@[j] == a);
            assert(post.actors@[i] == pre.actors@[i]);
            assert((pre.actors@[i]).id < pre.next_id);
        }
    }
    assert forall|i: int| 0 <= i < post.actors@.len() implies (#[trigger] post.actors@[i]).id
        < post.next_id && post.actors@[i].keys_wf() by {
        if i < pre.actors@.len() {
            assert(post.actors@[i] == pre.actors@[i]);
            assert((pre.actors@[i]).id < pre.next_id && pre.actors@[i].keys_wf());
        }
    }
    lemma_untouched_tables_wf(pre, post);
    assert forall|u: Seq<char>| #[trigger]
        post.has_actor_uri(u) == (pre.has_actor_uri(u) || u == a.uri@) by {
        if pre.has_actor_uri(u) {
            let w = choose|i: int| 0 <= i < pre.actors@.len() && #[trigger] pre.actors@[i].uri@ == u;
            assert(post.actors@[w].uri@ == u);
        }
        if u == a.uri@ {
            assert(post.actors@[idx].uri@ == u);
        }
        if post.has_actor_uri(u) {
            let w = choose|i: int|
                0 <= i < post.actors@.len() && #[trigger] post.actors@[i].uri@ == u;
            if w < pre.actors@.len() {
                assert(pre.actors@[w].uri@ == u);
            }
        }
    }
}

/// Replacing an actor in place, with id and URI kept, keeps the store
/// well formed.
pub proof fn lemma_wf_after_actor_update(pre: Store, post: Store, idx: int)
    requires
        pre.wf(),
        post.instances == pre.instances,
        post.posts == pre.posts,
        post.post_authors == pre.post_authors,
        post.follows == pre.follows,
        post.likes == pre.likes,
        post.reshares == pre.reshares,
        post.inbox_records == pre.inbox_records,
        post.next_id == pre.next_id,
        0 <= idx < pre.actors@.len(),
        post.actors@ == pre.actors@.update(idx, post.actors@[idx]),
        post.actors@[idx].id == pre.actors@[idx].id,
        post.actors@[idx].uri@ == pre.actors@[idx].uri@,
        post.actors@[idx].keys_wf(),
    ensures
        post.wf(),
{
    assert forall|i: int, j: int| 0 <= i < j < post.actors@.len() implies distinct_actors(
        #[trigger] post.actors@[i],
        #[trigger] post.actors@[j],
    ) by {
        assert(distinct_actors(pre.actors@[i], pre.actors@[j]));
    }
    assert forall|i: int| 0 <= i < post.actors@.len() implies (#[trigger] post.actors@[i]).id
        < post.next_id && post.actors@[i].keys_wf() by {
        if i != idx {
            assert(post.actors@[i] == pre.actors@[i]);
        }
        assert((pre.actors@[i]).id < pre.next_id && pre.actors@[i].keys_wf());
    }
    lemma_untouched_tables_wf(pre, post);
}

/// Replacing a post in place, with id and URI kept, keeps the store
/// well formed.
pub proof fn lemma_wf_after_post_update(pre: Store, post: Store, idx: int)
    requires
        pre.wf(),
        post.instances == pre.instances,
        post.actors == pre.actors,
        post.post_authors == pre.post_authors,
        post.follows == pre.follows,
        post.likes == pre.likes,
        post.reshares == pre.reshares,
        post.inbox_records == pre.inbox_records,
        post.next_id == pre.next_id,
        0 <= idx < pre.posts@.len(),
        post.posts@ == pre.posts@.update(idx, post.posts@[idx]),
        post.posts@[idx].id == pre.posts@[idx].id,
        post.posts@[idx].uri@ == pre.posts@[idx].uri@,
    ensures
        post.wf(),
{
    assert forall|i: int, j: int| 0 <= i < j < post.posts@.len() implies distinct_posts(
        #[trigger] post.posts@[i],
        #[trigger] post.posts@[j],
    ) by {
        assert(distinct_posts(pre.posts@[i], pre.posts@[j]));
    }
    assert forall|i: int| 0 <= i < post.posts@.len() implies (#[trigger] post.posts@[i]).id
        < post.next_id by {
        if i != idx {
            assert(post.posts@[i] == pre.posts@[i]);
        }
        assert((pre.posts@[i]).id < pre.next_id);
    }
    lemma_untouched_tables_wf(pre, post);
}

/// Pushing a fresh post keeps the store well formed.
pub proof fn lemma_wf_after_post_push(pre: Store, post: Store, idx: int)
    requires
        pre.wf(),
        post.instances == pre.instances,
        post.actors == pre.actors,
        post.post_authors == pre.post_authors,
        post.follows == pre.follows,
        post.likes == pre.likes,
        post.reshares == pre.reshares,
        post.inbox_records == pre.inbox_records,
        idx == pre.posts@.len(),
        post.posts@ == pre.posts@.push(post.posts@[idx]),
        pre.next_id <= post.posts@[idx].id,
        post.posts@[idx].id < post.next_id,
        pre.next_id <= post.next_id,
        !pre.has_post_uri(post.posts@[idx].uri@),
    ensures
        post.wf(),
        forall|u: Seq<char>|
            #[trigger] post.has_post_uri(u) == (pre.has_post_uri(u) || u == post.posts@[idx].uri@),
{
    let p = post.posts@[idx];
    assert forall|i: int| 0 <= i < pre.posts@.len() implies (#[trigger] pre.posts@[i]).uri@
        != p.uri@ by {
        if pre.posts@[i].uri@ == p.uri@ {
            assert(pre.has_post_uri(p.uri@));
        }
    }
    assert forall|i: int, j: int| 0 <= i < j < post.posts@.len() implies distinct_posts(
        #[trigger] post.posts@[i],
        #[trigger] post.posts@[j],
    ) by {
        if j < pre.posts@.len() {
            assert(distinct_posts(pre.posts@[i], pre.posts@[j]));
        } else {
            assert(post.posts@[j] == p);
            assert(post.posts@[i] == pre.posts@[i]);
            assert((pre.posts@[i]).id < pre.next_id);
            assert((pre.posts@[i]).uri@ != p.uri@);
        }
    }
    assert forall|i: int| 0 <= i < post.posts@.len() implies (#[trigger] post.posts@[i]).id
        < post.next_id by {
        if i < pre.posts@.len() {
            assert(post.posts@[i] == pre.posts@[i]);
            assert((pre.posts@[i]).id < pre.next_id);
        }
    }
    lemma_untouched_tables_wf(pre, post);
    assert forall|u: Seq<char>| #[trigger]
        post.has_post_uri(u) == (pre.has_post_uri(u) || u == p.uri@) by {
        if pre.has_post_uri(u) {
            let w = choose|i: int| 0 <= i < pre.posts@.len() && #[trigger] pre.posts@[i].uri@ == u;
            assert(post.posts@[w].uri@ == u);
        }
        if u == p.uri@ {
            assert(post.posts@[idx].uri@ == u);
        }
        if post.has_post_uri(u) {
            let w = choose|i: int| 0 <= i < post.posts@.len() && #[trigger] post.posts@[i].uri@ == u;
            if w < pre.posts@.len() {
                assert(pre.posts@[w].uri@ == u);
            }
        }
    }
}

/// Pushing a fresh post-author attribution keeps the store well formed.
pub proof fn lemma_wf_after_post_author_push(pre: Store, post: Store)
    requires
        pre.wf(),
        post.instances == pre.instances,
        post.actors == pre.actors,
        post.posts == pre.posts,
        post.follows == pre.follows,
        post.likes == pre.likes,
        post.reshares == pre.reshares,
        post.inbox_records == pre.inbox_records,
        pre.next_id <= post.next_id,
        post.post_authors@ == pre.post_authors@.push(post.post_authors@.last()),
        post.post_authors@.last().id < post.next_id,
        post.post_authors@.last().post_id < post.next_id,
        post.post_authors@.last().author_id < post.next_id,
        !pre.has_post_author(
            post.post_authors@.last().post_id,
            post.post_authors@.last().author_id,
        ),
    ensures
        post.wf(),
        forall|p: u64, a: u64|
            #[trigger] post.has_post_author(p, a) == (pre.has_post_author(p, a) || (p
                == post.post_authors@.last().post_id && a == post.post_authors@.last().author_id)),
{
    let n = pre.post_authors@.len() as int;
    let pa = post.post_authors@.last();
    assert forall|i: int| 0 <= i < n implies distinct_post_authors(
        #[trigger] pre.post_authors@[i],
        pa,
    ) by {
        if pre.post_authors@[i].post_id == pa.post_id && pre.post_authors@[i].author_id
            == pa.author_id {
            assert(pre.has_post_author(pa.post_id, pa.author_id));
        }
    }
    assert forall|i: int, j: int| 0 <= i < j < post.post_authors@.len() implies distinct_post_authors(
        #[trigger] post.post_authors@[i],
        #[trigger] post.post_authors@[j],
    ) by {
        if j < n {
            assert(distinct_post_authors(pre.post_authors@[i], pre.post_authors@[j]));
        } else {
            assert(post.post_authors@[j] == pa);
            assert(post.post_authors@[i] == pre.post_authors@[i]);
            assert(distinct_post_authors(pre.post_authors@[i], pa));
        }
    }
    assert forall|i: int| 0 <= i < post.post_authors@.len() implies (#[trigger] post.post_authors@[i]).id
        < post.next_id && post.post_authors@[i].post_id < post.next_id
        && post.post_authors@[i].author_id < post.next_id by {
        if i < n {
            assert(post.post_authors@[i] == pre.post_authors@[i]);
            assert((pre.post_authors@[i]).id < pre.next_id && pre.post_authors@[i].post_id
                < pre.next_id && pre.post_authors@[i].author_id < pre.next_id);
        }
    }
    lemma_untouched_tables_wf(pre, post);
    assert forall|p: u64, a: u64| #[trigger]
        post.has_post_author(p, a) == (pre.has_post_author(p, a) || (p == pa.post_id && a
            == pa.author_id)) by {
        if pre.has_post_author(p, a) {
            let w = choose|i: int|
                0 <= i < n && (#[trigger] pre.post_authors@[i]).post_id == p
                    && pre.post_authors@[i].author_id == a;
            assert(post.post_authors@[w].post_id == p && post.post_authors@[w].author_id == a);
        }
        if p == pa.post_id && a == pa.author_id {
            assert(post.post_authors@[n].post_id == p && post.post_authors@[n].author_id == a);
        }
        if post.has_post_author(p, a) {
            let w = choose|i: int|
                0 <= i < post.post_authors@.len() && (#[trigger] post.post_authors@[i]).post_id == p
                    && post.post_authors@[i].author_id == a;
            if w < n {
                assert(pre.post_authors@[w].post_id == p && pre.post_authors@[w].author_id == a);
            }
        }
    }
}

/// Pushing a fresh follow pair keeps the store well formed.
pub proof fn lemma_wf_after_follow_push(pre: Store, post: Store)
    requires
        pre.wf(),
        post.instances == pre.instances,
        post.actors == pre.actors,
        post.posts == pre.posts,
        post.post_authors == pre.post_authors,
        post.likes == pre.likes,
        post.reshares == pre.reshares,
        post.inbox_records == pre.inbox_records,
        pre.next_id <= post.next_id,
        post.follows@ == pre.follows@.push(post.follows@.last()),
        post.follows@.last().id < post.next_id,
        !pre.has_follow(post.follows@.last().follower_id, post.follows@.last().following_id),
    ensures
        post.wf(),
        forall|a: u64, b: u64|
            #[trigger] post.has_follow(a, b) == (pre.has_follow(a, b) || (a
                == post.follows@.last().follower_id && b == post.follows@.last().following_id)),
{
    let n = pre.follows@.len() as int;
    let f = post.follows@.last();
    assert forall|i: int| 0 <= i < n implies distinct_follows(#[trigger] pre.follows@[i], f) by {
        if pre.follows@[i].follower_id == f.follower_id && pre.follows@[i].following_id
            == f.following_id {
            assert(pre.has_follow(f.follower_id, f.following_id));
        }
    }
    assert forall|i: int, j: int| 0 <= i < j < post.follows@.len() implies distinct_follows(
        #[trigger] post.follows@[i],
        #[trigger] post.follows@[j],
    ) by {
        if j < n {
            assert(distinct_follows(pre.follows@[i], pre.follows@[j]));
        } else {
            assert(post.follows@[j] == f);
            assert(post.follows@[i] == pre.follows@[i]);
            assert(distinct_follows(pre.follows@[i], f));
        }
    }
    assert forall|i: int| 0 <= i < post.follows@.len() implies (#[trigger] post.follows@[i]).id
        < post.next_id by {
        if i < n {
            assert(post.follows@[i] == pre.follows@[i]);
            assert((pre.follows@[i]).id < pre.next_id);
        }
    }
    lemma_untouched_tables_wf(pre, post);
    assert forall|a: u64, b: u64| #[trigger]
        post.has_follow(a, b) == (pre.has_follow(a, b) || (a == f.follower_id && b
            == f.following_id)) by {
        if pre.has_follow(a, b) {
            let w = choose|i: int|
                0 <= i < n && (#[trigger] pre.follows@[i]).follower_id == a
                    && pre.follows@[i].following_id == b;
            assert(post.follows@[w].follower_id == a && post.follows@[w].following_id == b);
        }
        if a == f.follower_id && b == f.following_id {
            assert(post.follows@[n].follower_id == a && post.follows@[n].following_id == b);
        }
        if post.has_follow(a, b) {
            let w = choose|i: int|
                0 <= i < post.follows@.len() && (#[trigger] post.follows@[i]).follower_id == a
                    && post.follows@[i].following_id == b;
            if w < n {
                assert(pre.follows@[w].follower_id == a && pre.follows@[w].following_id == b);
            }
        }
    }
}

/// Removing a follow pair keeps the store well formed; exactly that pair
/// disappears.
pub proof fn lemma_wf_after_follow_remove(pre: Store, post: Store, idx: int)
    requires
        pre.wf(),
        post.instances == pre.instances,
        post.actors == pre.actors,
        post.posts == pre.posts,
        post.post_authors == pre.post_authors,
        post.likes == pre.likes,
        post.reshares == pre.reshares,
        post.inbox_records == pre.inbox_records,
        post.next_id == pre.next_id,
        0 <= idx < pre.follows@.len(),
        post.follows@ == pre.follows@.remove(idx),
    ensures
        post.wf(),
        !post.has_follow(pre.follows@[idx].follower_id, pre.follows@[idx].following_id),
        forall|a: u64, b: u64|
            !(a == pre.follows@[idx].follower_id && b == pre.follows@[idx].following_id)
                ==> #[trigger] post.has_follow(a, b) == pre.has_follow(a, b),
{
    pre.follows@.remove_ensures(idx);
    let rm = pre.follows@[idx];
    assert forall|i: int, j: int| 0 <= i < j < post.follows@.len() implies distinct_follows(
        #[trigger] post.follows@[i],
        #[trigger] post.follows@[j],
    ) by {
        let oi = if i < idx { i } else { i + 1 };
        let oj = if j < idx { j } else { j + 1 };
        assert(post.follows@[i] == pre.follows@[oi]);
        assert(post.follows@[j] == pre.follows@[oj]);
        assert(distinct_follows(pre.follows@[oi], pre.follows@[oj]));
    }
    assert forall|i: int| 0 <= i < post.follows@.len() implies (#[trigger] post.follows@[i]).id
        < post.next_id by {
        let oi = if i < idx { i } else { i + 1 };
        assert(post.follows@[i] == pre.follows@[oi]);
        assert((pre.follows@[oi]).id < pre.next_id);
    }
    lemma_untouched_tables_wf(pre, post);
    if post.has_follow(rm.follower_id, rm.following_id) {
        let w = choose|i: int|
            0 <= i < post.follows@.len() && (#[trigger] post.follows@[i]).follower_id
                == rm.follower_id && post.follows@[i].following_id == rm.following_id;
        let ow = if w < idx { w } else { w + 1 };
        assert(pre.follows@[ow] == post.follows@[w]);
        assert(ow != idx);
        assert(distinct_follows(pre.follows@[if ow < idx { ow } else { idx }], pre.follows@[if ow
            < idx {
            idx
        } else {
            ow
        }]));
        assert(false);
    }
    assert forall|a: u64, b: u64|
        !(a == rm.follower_id && b == rm.following_id) implies #[trigger] post.has_follow(a, b)
            == pre.has_follow(a, b) by {
        if pre.has_follow(a, b) {
            let w = choose|i: int|
                0 <= i < pre.follows@.len() && (#[trigger] pre.follows@[i]).follower_id == a
                    && pre.follows@[i].following_id == b;
            assert(w != idx);
            let nw = if w < idx { w } else { w - 1 };
            assert(post.follows@[nw] == pre.follows@[w]);
        }
        if post.has_follow(a, b) {
            let w = choose|i: int|
                0 <= i < post.follows@.len() && (#[trigger] post.follows@[i]).follower_id == a
                    && post.follows@[i].following_id == b;
            let ow = if w < idx { w } else { w + 1 };
            assert(pre.follows@[ow] == post.follows@[w]);
        }
    }
}

/// Pushing a fresh like pair keeps the store well formed.
pub proof fn lemma_wf_after_like_push(pre: Store, post: Store)
    requires
        pre.wf(),
        post.instances == pre.instances,
        post.actors == pre.actors,
        post.posts == pre.posts,
        post.post_authors == pre.post_authors,
        post.follows == pre.follows,
        post.reshares == pre.reshares,
        post.inbox_records == pre.inbox_records,
        pre.next_id <= post.next_id,
        post.likes@ == pre.likes@.push(post.likes@.last()),
        post.likes@.last().id < post.next_id,
        !pre.has_like(post.likes@.last().actor_id, post.likes@.last().post_id),
    ensures
        post.wf(),
        forall|a: u64, p: u64|
            #[trigger] post.has_like(a, p) == (pre.has_like(a, p) || (a
                == post.likes@.last().actor_id && p == post.likes@.last().post_id)),
{
    let n = pre.likes@.len() as int;
    let l = post.likes@.last();
    assert forall|i: int| 0 <= i < n implies distinct_likes(#[trigger] pre.likes@[i], l) by {
        if pre.likes@[i].actor_id == l.actor_id && pre.likes@[i].post_id == l.post_id {
            assert(pre.has_like(l.actor_id, l.post_id));
        }
    }
    assert forall|i: int, j: int| 0 <= i < j < post.likes@.len() implies distinct_likes(
        #[trigger] post.likes@[i],
        #[trigger] post.likes@[j],
    ) by {
        if j < n {
            assert(distinct_likes(pre.likes@[i], pre.likes@[j]));
        } else {
            assert(post.likes@[j] == l);
            assert(post.likes@[i] == pre.likes@[i]);
            assert(distinct_likes(pre.likes@[i], l));
        }
    }
    assert forall|i: int| 0 <= i < post.likes@.len() implies (#[trigger] post.likes@[i]).id
        < post.next_id by {
        if i < n {
            assert(post.likes@[i] == pre.likes@[i]);
            assert((pre.likes@[i]).id < pre.next_id);
        }
    }
    lemma_untouched_tables_wf(pre, post);
    assert forall|a: u64, p: u64| #[trigger]
        post.has_like(a, p) == (pre.has_like(a, p) || (a == l.actor_id && p == l.post_id)) by {
        if pre.has_like(a, p) {
            let w = choose|i: int|
                0 <= i < n && (#[trigger] pre.likes@[i]).actor_id == a && pre.likes@[i].post_id
                    == p;
            assert(post.likes@[w].actor_id == a && post.likes@[w].post_id == p);
        }
        if a == l.actor_id && p == l.post_id {
            assert(post.likes@[n].actor_id == a && post.likes@[n].post_id == p);
        }
        if post.has_like(a, p) {
            let w = choose|i: int|
                0 <= i < post.likes@.len() && (#[trigger] post.likes@[i]).actor_id == a
                    && post.likes@[i].post_id == p;
            if w < n {
                assert(pre.likes@[w].actor_id == a && pre.likes@[w].post_id == p);
            }
        }
    }
}

/// Removing a like pair keeps the store well formed; exactly that pair
/// disappears.
pub proof fn lemma_wf_after_like_remove(pre: Store, post: Store, idx: int)
    requires
        pre.wf(),
        post.instances == pre.instances,
        post.actors == pre.actors,
        post.posts == pre.posts,
        post.post_authors == pre.post_authors,
        post.follows == pre.follows,
        post.reshares == pre.reshares,
        post.inbox_records == pre.inbox_records,
        post.next_id == pre.next_id,
        0 <= idx < pre.likes@.len(),
        post.likes@ == pre.likes@.remove(idx),
    ensures
        post.wf(),
        !post.has_like(pre.likes@[idx].actor_id, pre.likes@[idx].post_id),
        forall|a: u64, p: u64|
            !(a == pre.likes@[idx].actor_id && p == pre.likes@[idx].post_id)
                ==> #[trigger] post.has_like(a, p) == pre.has_like(a, p),
{
    pre.likes@.remove_ensures(idx);
    let rm = pre.likes@[idx];
    assert forall|i: int, j: int| 0 <= i < j < post.likes@.len() implies distinct_likes(
        #[trigger] post.likes@[i],
        #[trigger] post.likes@[j],
    ) by {
        let oi = if i < idx { i } else { i + 1 };
        let oj = if j < idx { j } else { j + 1 };
        assert(post.likes@[i] == pre.likes@[oi]);
        assert(post.likes@[j] == pre.likes@[oj]);
        assert(distinct_likes(pre.likes@[oi], pre.likes@[oj]));
    }
    assert forall|i: int| 0 <= i < post.likes@.len() implies (#[trigger] post.likes@[i]).id
        < post.next_id by {
        let oi = if i < idx { i } else { i + 1 };
        assert(post.likes@[i] == pre.likes@[oi]);
        assert((pre.likes@[oi]).id < pre.next_id);
    }
    lemma_untouched_tables_wf(pre, post);
    if post.has_like(rm.actor_id, rm.post_id) {
        let w = choose|i: int|
            0 <= i < post.likes@.len() && (#[trigger] post.likes@[i]).actor_id == rm.actor_id
                && post.likes@[i].post_id == rm.post_id;
        let ow = if w < idx { w } else { w + 1 };
        assert(pre.likes@[ow] == post.likes@[w]);
        assert(ow != idx);
        assert(distinct_likes(pre.likes@[if ow < idx { ow } else { idx }], pre.likes@[if ow < idx {
            idx
        } else {
            ow
        }]));
        assert(false);
    }
    assert forall|a: u64, p: u64|
        !(a == rm.actor_id && p == rm.post_id) implies #[trigger] post.has_like(a, p)
            == pre.has_like(a, p) by {
        if pre.has_like(a, p) {
            let w = choose|i: int|
                0 <= i < pre.likes@.len() && (#[trigger] pre.likes@[i]).actor_id == a
                    && pre.likes@[i].post_id == p;
            assert(w != idx);
            let nw = if w < idx { w } else { w - 1 };
            assert(post.likes@[nw] == pre.likes@[w]);
        }
        if post.has_like(a, p) {
            let w = choose|i: int|
                0 <= i < post.likes@.len() && (#[trigger] post.likes@[i]).actor_id == a
                    && post.likes@[i].post_id == p;
            let ow = if w < idx { w } else { w + 1 };
            assert(pre.likes@[ow] == post.likes@[w]);
        }
    }
}

/// Pushing a fresh reshare pair keeps the store well formed.
pub proof fn lemma_wf_after_reshare_push(pre: Store, post: Store)
    requires
        pre.wf(),
        post.instances == pre.instances,
        post.actors == pre.actors,
        post.posts == pre.posts,
        post.post_authors == pre.post_authors,
        post.follows == pre.follows,
        post.likes == pre.likes,
        post.inbox_records == pre.inbox_records,
        pre.next_id <= post.next_id,
        post.reshares@ == pre.reshares@.push(post.reshares@.last()),
        post.reshares@.last().id < post.next_id,
        !pre.has_reshare(post.reshares@.last().actor_id, post.reshares@.last().post_id),
    ensures
        post.wf(),
        forall|a: u64, p: u64|
            #[trigger] post.has_reshare(a, p) == (pre.has_reshare(a, p) || (a
                == post.reshares@.last().actor_id && p == post.reshares@.last().post_id)),
{
    let n = pre.reshares@.len() as int;
    let l = post.reshares@.last();
    assert forall|i: int| 0 <= i < n implies distinct_reshares(#[trigger] pre.reshares@[i], l) by {
        if pre.reshares@[i].actor_id == l.actor_id && pre.reshares@[i].post_id == l.post_id {
            assert(pre.has_reshare(l.actor_id, l.post_id));
        }
    }
    assert forall|i: int, j: int| 0 <= i < j < post.reshares@.len() implies distinct_reshares(
        #[trigger] post.reshares@[i],
        #[trigger] post.reshares@[j],
    ) by {
        if j < n {
            assert(distinct_reshares(pre.reshares@[i], pre.reshares@[j]));
        } else {
            assert(post.reshares@[j] == l);
            assert(post.reshares@[i] == pre.reshares@[i]);
            assert(distinct_reshares(pre.reshares@[i], l));
        }
    }
    assert forall|i: int| 0 <= i < post.reshares@.len() implies (#[trigger] post.reshares@[i]).id
        < post.next_id by {
        if i < n {
            assert(post.reshares@[i] == pre.reshares@[i]);
            assert((pre.reshares@[i]).id < pre.next_id);
        }
    }
    lemma_untouched_tables_wf(pre, post);
    assert forall|a: u64, p: u64| #[trigger]
        post.has_reshare(a, p) == (pre.has_reshare(a, p) || (a == l.actor_id && p == l.post_id)) by {
        if pre.has_reshare(a, p) {
            let w = choose|i: int|
                0 <= i < n && (#[trigger] pre.reshares@[i]).actor_id == a
                    && pre.reshares@[i].post_id == p;
            assert(post.reshares@[w].actor_id == a && post.reshares@[w].post_id == p);
        }
        if a == l.actor_id && p == l.post_id {
            assert(post.reshares@[n].actor_id == a && post.reshares@[n].post_id == p);
        }
        if post.has_reshare(a, p) {
            let w = choose|i: int|
                0 <= i < post.reshares@.len() && (#[trigger] post.reshares@[i]).actor_id == a
                    && post.reshares@[i].post_id == p;
            if w < n {
                assert(pre.reshares@[w].actor_id == a && pre.reshares@[w].post_id == p);
            }
        }
    }
}

/// Removing a reshare pair keeps the store well formed; exactly that pair
/// disappears.
pub proof fn lemma_wf_after_reshare_remove(pre: Store, post: Store, idx: int)
    requires
        pre.wf(),
        post.instances == pre.instances,
        post.actors == pre.actors,
        post.posts == pre.posts,
        post.post_authors == pre.post_authors,
        post.follows == pre.follows,
        post.likes == pre.likes,
        post.inbox_records == pre.inbox_records,
        post.next_id == pre.next_id,
        0 <= idx < pre.reshares@.len(),
        post.reshares@ == pre.reshares@.remove(idx),
    ensures
        post.wf(),
        !post.has_reshare(pre.reshares@[idx].actor_id, pre.reshares@[idx].post_id),
        forall|a: u64, p: u64|
            !(a == pre.reshares@[idx].actor_id && p == pre.reshares@[idx].post_id)
                ==> #[trigger] post.has_reshare(a, p) == pre.has_reshare(a, p),
{
    pre.reshares@.remove_ensures(idx);
    let rm = pre.reshares@[idx];
    assert forall|i: int, j: int| 0 <= i < j < post.reshares@.len() implies distinct_reshares(
        #[trigger] post.reshares@[i],
        #[trigger] post.reshares@[j],
    ) by {
        let oi = if i < idx { i } else { i + 1 };
        let oj = if j < idx { j } else { j + 1 };
        assert(post.reshares@[i] == pre.reshares@[oi]);
        assert(post.reshares@[j] == pre.reshares@[oj]);
        assert(distinct_reshares(pre.reshares@[oi], pre.reshares@[oj]));
    }
    assert forall|i: int| 0 <= i < post.reshares@.len() implies (#[trigger] post.reshares@[i]).id
        < post.next_id by {
        let oi = if i < idx { i } else { i + 1 };
        assert(post.reshares@[i] == pre.reshares@[oi]);
        assert((pre.reshares@[oi]).id < pre.next_id);
    }
    lemma_untouched_tables_wf(pre, post);
    if post.has_reshare(rm.actor_id, rm.post_id) {
        let w = choose|i: int|
            0 <= i < post.reshares@.len() && (#[trigger] post.reshares@[i]).actor_id == rm.actor_id
                && post.reshares@[i].post_id == rm.post_id;
        let ow = if w < idx { w } else { w + 1 };
        assert(pre.reshares@[ow] == post.reshares@[w]);
        assert(ow != idx);
        assert(distinct_reshares(pre.reshares@[if ow < idx { ow } else { idx }], pre.reshares@[if ow
            < idx {
            idx
        } else {
            ow
        }]));
        assert(false);
    }
    assert forall|a: u64, p: u64|
        !(a == rm.actor_id && p == rm.post_id) implies #[trigger] post.has_reshare(a, p)
            == pre.has_reshare(a, p) by {
        if pre.has_reshare(a, p) {
            let w = choose|i: int|
                0 <= i < pre.reshares@.len() && (#[trigger] pre.reshares@[i]).actor_id == a
                    && pre.reshares@[i].post_id == p;
            assert(w != idx);
            let nw = if w < idx { w } else { w - 1 };
            assert(post.reshares@[nw] == pre.reshares@[w]);
        }
        if post.has_reshare(a, p) {
            let w = choose|i: int|
                0 <= i < post.reshares@.len() && (#[trigger] post.reshares@[i]).actor_id == a
                    && post.reshares@[i].post_id == p;
            let ow = if w < idx { w } else { w + 1 };
            assert(pre.reshares@[ow] == post.reshares@[w]);
        }
    }
}

/// Pushing a fresh ledger entry keeps the store well formed.
pub proof fn lemma_wf_after_record_push(pre: Store, post: Store)
    requires
        pre.wf(),
        post.instances == pre.instances,
        post.actors == pre.actors,
        post.posts == pre.posts,
        post.post_authors == pre.post_authors,
        post.follows == pre.follows,
        post.likes == pre.likes,
        post.reshares == pre.reshares,
        pre.next_id <= post.next_id,
        post.inbox_records@ == pre.inbox_records@.push(post.inbox_records@.last()),
        !pre.has_record(post.inbox_records@.last().activity_uri@),
    ensures
        post.wf(),
        forall|u: Seq<char>|
            #[trigger] post.has_record(u) == (pre.has_record(u) || u
                == post.inbox_records@.last().activity_uri@),
{
    let n = pre.inbox_records@.len() as int;
    let e = post.inbox_records@.last();
    assert forall|i: int| 0 <= i < n implies distinct_records(
        #[trigger] pre.inbox_records@[i],
        e,
    ) by {
        if pre.inbox_records@[i].activity_uri@ == e.activity_uri@ {
            assert(pre.has_record(e.activity_uri@));
        }
    }
    assert forall|i: int, j: int| 0 <= i < j < post.inbox_records@.len() implies distinct_records(
        #[trigger] post.inbox_records@[i],
        #[trigger] post.inbox_records@[j],
    ) by {
        if j < n {
            assert(distinct_records(pre.inbox_records@[i], pre.inbox_records@[j]));
        } else {
            assert(post.inbox_records@[j] == e);
            assert(post.inbox_records@[i] == pre.inbox_records@[i]);
            assert(distinct_records(pre.inbox_records@[i], e));
        }
    }
    lemma_untouched_tables_wf(pre, post);
    assert forall|u: Seq<char>| #[trigger]
        post.has_record(u) == (pre.has_record(u) || u == e.activity_uri@) by {
        if pre.has_record(u) {
            let w = choose|i: int|
                0 <= i < n && #[trigger] pre.inbox_records@[i].activity_uri@ == u;
            assert(post.inbox_records@[w].activity_uri@ == u);
        }
        if u == e.activity_uri@ {
            assert(post.inbox_records@[n].activity_uri@ == u);
        }
        if post.has_record(u) {
            let w = choose|i: int|
                0 <= i < post.inbox_records@.len() && #[trigger] post.inbox_records@[i].activity_uri@
                    == u;
            if w < n {
                assert(pre.inbox_records@[w].activity_uri@ == u);
            }
        }
    }
}

/// Clone a byte vector; the copy views equal.
pub fn clone_bytes(v: &Vec<u8>) -> (r: Vec<u8>)
    ensures
        r@ == v@,
{
    let r = v.clone();
    proof {
        assert(r@ =~= v@);
    }
    r
}

} // verus!
