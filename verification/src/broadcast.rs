//! Outbound broadcast: compute the recipient set of a locally originated
//! activity, serialize it once, and produce one delivery job per distinct
//! inbox endpoint.
//!
//! Delivery itself is an external worker's business: the engine only
//! computes what to send where. Recipients sharing one shared-inbox
//! endpoint receive a single delivery.

use crate::model::{Activity, Actor};
use crate::render::render_activity;
use crate::store::{vec_contains_u64, Store};
use vstd::prelude::*;

verus! {

/// The endpoint a delivery for this actor goes to: the shared inbox when
/// one is declared, the personal inbox otherwise.
pub open spec fn chosen_inbox(a: Actor) -> Seq<char> {
    match a.shared_inbox_uri {
        Some(u) => u@,
        None => a.inbox_uri@,
    }
}

/// Whether a list of strings holds this value.
pub open spec fn contains_str(rs: Seq<String>, v: Seq<char>) -> bool {
    exists|k: int| 0 <= k < rs.len() && #[trigger] rs[k]@ == v
}

/// Whether a vector of strings holds the given value.
pub fn vec_contains_string(v: &Vec<String>, x: &String) -> (r: bool)
    ensures
        r == contains_str(v@, x@),
{
    let mut i: usize = 0;
    while i < v.len()
        invariant
            i <= v@.len(),
            forall|j: int| 0 <= j < i ==> #[trigger] v@[j]@ != x@,
        decreases v@.len() - i,
    {
        if v[i].eq(x) {
            return true;
        }
        i += 1;
    }
    false
}

/// Whether `v` is the chosen endpoint of some actor in the recipient set.
pub open spec fn inbox_of_recipient(s: Store, ids: Seq<u64>, v: Seq<char>) -> bool {
    exists|i: int|
        0 <= i < s.actors@.len() && ids.contains(#[trigger] s.actors@[i].id) && chosen_inbox(
            s.actors@[i],
        ) == v
}

/// One unit of work for the delivery worker pool.
pub struct DeliveryJob {
    pub inbox: String,
    pub body: String,
}

/// Whether some job in the list is addressed to this endpoint.
pub open spec fn jobs_contain_inbox(jobs: Seq<DeliveryJob>, v: Seq<char>) -> bool {
    exists|k: int| 0 <= k < jobs.len() && (#[trigger] jobs[k]).inbox@ == v
}

/// Whether `v` is the chosen endpoint of a follower of `followed`.
pub open spec fn endpoint_of_follower(s: Store, followed: u64, v: Seq<char>) -> bool {
    exists|i: int|
        0 <= i < s.actors@.len() && s.has_follow((#[trigger] s.actors@[i]).id, followed)
            && chosen_inbox(s.actors@[i]) == v
}

/// Whether `v` is the chosen endpoint of a recipient of a reaction on a
/// post: one of the post's authors or one of the reactor's followers.
pub open spec fn endpoint_of_reaction_recipient(
    s: Store,
    reactor: u64,
    post: u64,
    v: Seq<char>,
) -> bool {
    exists|i: int|
        0 <= i < s.actors@.len() && (s.has_follow((#[trigger] s.actors@[i]).id, reactor)
            || s.has_post_author(post, s.actors@[i].id)) && chosen_inbox(s.actors@[i]) == v
}

/// The distinct inbox endpoints of a recipient set, preferring shared
/// inboxes: every recipient's endpoint appears, and each endpoint once.
pub fn delivery_inboxes(s: &Store, ids: &Vec<u64>) -> (r: Vec<String>)
    requires
        s.wf(),
    ensures
        forall|k: int, l: int| 0 <= k < l < r@.len() ==> r@[k]@ != r@[l]@,
        forall|i: int|
            0 <= i < s.actors@.len() && ids@.contains(#[trigger] s.actors@[i].id)
                ==> contains_str(r@, chosen_inbox(s.actors@[i])),
        forall|k: int| 0 <= k < r@.len() ==> inbox_of_recipient(*s, ids@, #[trigger] r@[k]@),
{
    let mut r: Vec<String> = Vec::new();
    let mut j: usize = 0;
    while j < ids.len()
        invariant
            s.wf(),
            j <= ids@.len(),
            forall|k: int, l: int| 0 <= k < l < r@.len() ==> r@[k]@ != r@[l]@,
            forall|i: int|
                0 <= i < s.actors@.len() && ids@.subrange(0, j as int).contains(
                    #[trigger] s.actors@[i].id,
                ) ==> contains_str(r@, chosen_inbox(s.actors@[i])),
            forall|k: int| 0 <= k < r@.len() ==> inbox_of_recipient(*s, ids@, #[trigger] r@[k]@),
        decreases ids@.len() - j,
    {
        let ghost old_r = r@;
        let found = s.find_actor_by_id(ids[j]);
        match found {
            Some(a_idx) => {
                let inbox = match &s.actors[a_idx].shared_inbox_uri {
                    Some(u) => u.clone(),
                    None => s.actors[a_idx].inbox_uri.clone(),
                };
                proof {
                    assert(chosen_inbox(s.actors@[a_idx as int]) == inbox@);
                    assert(ids@.contains(s.actors@[a_idx as int].id)) by {
                        assert(ids@[j as int] == s.actors@[a_idx as int].id);
                    }
                }
                let dup = vec_contains_string(&r, &inbox);
                if !dup {
                    r.push(inbox);
                    proof {
                        assert(r@[r@.len() - 1]@ == chosen_inbox(s.actors@[a_idx as int]));
                        assert forall|k: int| 0 <= k < r@.len() implies inbox_of_recipient(
                            *s,
                            ids@,
                            #[trigger] r@[k]@,
                        ) by {
                            if k < old_r.len() {
                                assert(r@[k] == old_r[k]);
                                assert(inbox_of_recipient(*s, ids@, old_r[k]@));
                            } else {
                                assert(ids@.contains(s.actors@[a_idx as int].id) && chosen_inbox(
                                    s.actors@[a_idx as int],
                                ) == r@[k]@);
                            }
                        }
                    }
                }
                proof {
                    assert(contains_str(r@, chosen_inbox(s.actors@[a_idx as int]))) by {
                        if dup {
                            let k = choose|k: int|
                                0 <= k < old_r.len() && #[trigger] old_r[k]@ == inbox@;
                            assert(r@[k]@ == inbox@);
                        } else {
                            assert(r@[r@.len() - 1]@ == inbox@);
                        }
                    }
                    assert forall|i: int|
                        0 <= i < s.actors@.len() && ids@.subrange(0, j + 1).contains(
                            #[trigger] s.actors@[i].id,
                        ) implies contains_str(r@, chosen_inbox(s.actors@[i])) by {
                        let w = choose|w: int|
                            0 <= w < j + 1 && #[trigger] ids@.subrange(0, j + 1)[w]
                                == s.actors@[i].id;
                        if w < j {
                            assert(ids@.subrange(0, j as int)[w] == s.actors@[i].id);
                            assert(ids@.subrange(0, j as int).contains(s.actors@[i].id));
                            assert(contains_str(old_r, chosen_inbox(s.actors@[i])));
                            let k = choose|k: int|
                                0 <= k < old_r.len() && #[trigger] old_r[k]@ == chosen_inbox(
                                    s.actors@[i],
                                );
                            assert(r@[k]@ == chosen_inbox(s.actors@[i]));
                        } else {
                            assert(s.actors@[i].id == ids@[j as int]);
                            assert(s.actors@[a_idx as int].id == ids@[j as int]);
                            if i < a_idx as int {
                                assert(crate::store::distinct_actors(
                                    s.actors@[i],
                                    s.actors@[a_idx as int],
                                ));
                            }
                            if (a_idx as int) < i {
                                assert(crate::store::distinct_actors(
                                    s.actors@[a_idx as int],
                                    s.actors@[i],
                                ));
                            }
                            assert(i == a_idx as int);
                        }
                    }
                }
            },
            None => {
                proof {
                    assert forall|i: int|
                        0 <= i < s.actors@.len() && ids@.subrange(0, j + 1).contains(
                            #[trigger] s.actors@[i].id,
                        ) implies contains_str(r@, chosen_inbox(s.actors@[i])) by {
                        let w = choose|w: int|
                            0 <= w < j + 1 && #[trigger] ids@.subrange(0, j + 1)[w]
                                == s.actors@[i].id;
                        if w < j {
                            assert(ids@.subrange(0, j as int)[w] == s.actors@[i].id);
                            assert(ids@.subrange(0, j as int).contains(s.actors@[i].id));
                        } else {
                            assert(s.actors@[i].id == ids@[j as int]);
                            assert(false);
                        }
                    }
                }
            },
        }
        j += 1;
    }
    proof {
        assert(ids@.subrange(0, ids@.len() as int) =~= ids@);
    }
    r
}

/// The recipient set of a reaction on a post: the post's authors and the
/// reacting actor's followers, each exactly once, the author included
/// exactly once even when the author also follows.
pub fn reaction_recipients(s: &Store, reactor_id: u64, post_id: u64) -> (r: Vec<u64>)
    requires
        s.wf(),
    ensures
        forall|k: int, l: int| 0 <= k < l < r@.len() ==> r@[k] != r@[l],
        forall|f: u64| #[trigger] s.has_follow(f, reactor_id) ==> r@.contains(f),
        forall|a: u64| #[trigger] s.has_post_author(post_id, a) ==> r@.contains(a),
        forall|k: int|
            0 <= k < r@.len() ==> s.has_follow(#[trigger] r@[k], reactor_id) || s.has_post_author(
                post_id,
                r@[k],
            ),
{
    let mut r = s.followers_of(reactor_id);
    let mut i: usize = 0;
    while i < s.post_authors.len()
        invariant
            s.wf(),
            i <= s.post_authors@.len(),
            forall|k: int, l: int| 0 <= k < l < r@.len() ==> r@[k] != r@[l],
            forall|f: u64| #[trigger] s.has_follow(f, reactor_id) ==> r@.contains(f),
            forall|j: int|
                0 <= j < i && (#[trigger] s.post_authors@[j]).post_id == post_id ==> r@.contains(
                    s.post_authors@[j].author_id,
                ),
            forall|k: int|
                0 <= k < r@.len() ==> s.has_follow(#[trigger] r@[k], reactor_id)
                    || s.has_post_author(post_id, r@[k]),
        decreases s.post_authors@.len() - i,
    {
        let ghost old_r = r@;
        if s.post_authors[i].post_id == post_id {
            let author = s.post_authors[i].author_id;
            if !vec_contains_u64(&r, author) {
                proof {
                    assert((s.post_authors@[i as int]).post_id == post_id);
                    assert(s.has_post_author(post_id, author));
                }
                r.push(author);
            }
            proof {
                assert(r@.contains(author)) by {
                    if old_r.contains(author) {
                        let k = choose|k: int| 0 <= k < old_r.len() && old_r[k] == author;
                        assert(r@[k] == author);
                    } else {
                        assert(r@[r@.len() - 1] == author);
                    }
                }
            }
        }
        proof {
            assert forall|j: int|
                0 <= j < i + 1 && (#[trigger] s.post_authors@[j]).post_id == post_id implies r@.contains(
                s.post_authors@[j].author_id,
            ) by {
                if j < i {
                    let k = choose|k: int|
                        0 <= k < old_r.len() && old_r[k] == s.post_authors@[j].author_id;
                    assert(r@[k] == s.post_authors@[j].author_id);
                }
            }
            assert forall|f: u64| #[trigger] s.has_follow(f, reactor_id) implies r@.contains(f) by {
                let k = choose|k: int| 0 <= k < old_r.len() && old_r[k] == f;
                assert(r@[k] == f);
            }
        }
        i += 1;
    }
    proof {
        assert forall|a: u64| #[trigger] s.has_post_author(post_id, a) implies r@.contains(a) by {
            let j = choose|j: int|
                0 <= j < s.post_authors@.len() && (#[trigger] s.post_authors@[j]).post_id == post_id
                    && s.post_authors@[j].author_id == a;
            assert(r@.contains(s.post_authors@[j].author_id));
        }
    }
    r
}

/// Serialize the activity once and address a copy to each inbox.
/// Enqueueing the jobs is the caller's worker pool's business; computing
/// them never blocks on the network.
pub fn broadcast_jobs(act: &Activity, inboxes: Vec<String>) -> (r: Vec<DeliveryJob>)
    ensures
        r@.len() == inboxes@.len(),
        forall|k: int|
            0 <= k < r@.len() ==> (#[trigger] r@[k]).inbox == inboxes@[k] && r@[k].body@
                == render_activity(*act),
{
    let body = crate::render::render(act);
    let mut r: Vec<DeliveryJob> = Vec::new();
    let mut i: usize = 0;
    while i < inboxes.len()
        invariant
            i <= inboxes@.len(),
            r@.len() == i,
            body@ == render_activity(*act),
            forall|k: int|
                0 <= k < i ==> (#[trigger] r@[k]).inbox == inboxes@[k] && r@[k].body@
                    == render_activity(*act),
        decreases inboxes@.len() - i,
    {
        r.push(DeliveryJob { inbox: inboxes[i].clone(), body: body.clone() });
        i += 1;
    }
    r
}

/// Delivery jobs built over the distinct endpoints of a recipient set
/// address every recipient and nobody else.
pub proof fn lemma_jobs_cover_recipients(
    s: Store,
    ids: Seq<u64>,
    inboxes: Seq<String>,
    jobs: Seq<DeliveryJob>,
)
    requires
        forall|i: int|
            0 <= i < s.actors@.len() && ids.contains(#[trigger] s.actors@[i].id) ==> contains_str(
                inboxes,
                chosen_inbox(s.actors@[i]),
            ),
        forall|k: int| 0 <= k < inboxes.len() ==> inbox_of_recipient(s, ids, #[trigger] inboxes[k]@),
        jobs.len() == inboxes.len(),
        forall|k: int| 0 <= k < jobs.len() ==> (#[trigger] jobs[k]).inbox == inboxes[k],
    ensures
        forall|i: int|
            0 <= i < s.actors@.len() && ids.contains(#[trigger] s.actors@[i].id)
                ==> jobs_contain_inbox(jobs, chosen_inbox(s.actors@[i])),
        forall|k: int|
            0 <= k < jobs.len() ==> inbox_of_recipient(s, ids, (#[trigger] jobs[k]).inbox@),
{
    assert forall|i: int|
        0 <= i < s.actors@.len() && ids.contains(#[trigger] s.actors@[i].id) implies jobs_contain_inbox(
        jobs,
        chosen_inbox(s.actors@[i]),
    ) by {
        assert(contains_str(inboxes, chosen_inbox(s.actors@[i])));
        let k = choose|k: int|
            0 <= k < inboxes.len() && #[trigger] inboxes[k]@ == chosen_inbox(s.actors@[i]);
        assert(jobs[k].inbox@ == chosen_inbox(s.actors@[i]));
    }
}

/// For a reaction's recipient set (the post's authors and the reactor's
/// followers), the computed jobs address every such actor's endpoint and
/// only such endpoints.
pub proof fn lemma_reaction_delivery(
    s: Store,
    ids: Seq<u64>,
    reactor: u64,
    post: u64,
    jobs: Seq<DeliveryJob>,
)
    requires
        forall|k: int|
            0 <= k < ids.len() ==> s.has_follow(#[trigger] ids[k], reactor) || s.has_post_author(
                post,
                ids[k],
            ),
        forall|f: u64| #[trigger] s.has_follow(f, reactor) ==> ids.contains(f),
        forall|a: u64| #[trigger] s.has_post_author(post, a) ==> ids.contains(a),
        forall|i: int|
            0 <= i < s.actors@.len() && ids.contains(#[trigger] s.actors@[i].id)
                ==> jobs_contain_inbox(jobs, chosen_inbox(s.actors@[i])),
        forall|k: int|
            0 <= k < jobs.len() ==> inbox_of_recipient(s, ids, (#[trigger] jobs[k]).inbox@),
    ensures
        forall|i: int|
            0 <= i < s.actors@.len() && (s.has_follow((#[trigger] s.actors@[i]).id, reactor)
                || s.has_post_author(post, s.actors@[i].id)) ==> jobs_contain_inbox(
                jobs,
                chosen_inbox(s.actors@[i]),
            ),
        forall|k: int|
            0 <= k < jobs.len() ==> endpoint_of_reaction_recipient(
                s,
                reactor,
                post,
                (#[trigger] jobs[k]).inbox@,
            ),
{
    assert forall|k: int| 0 <= k < jobs.len() implies endpoint_of_reaction_recipient(
        s,
        reactor,
        post,
        (#[trigger] jobs[k]).inbox@,
    ) by {
        assert(inbox_of_recipient(s, ids, jobs[k].inbox@));
        let i = choose|i: int|
            0 <= i < s.actors@.len() && ids.contains(#[trigger] s.actors@[i].id) && chosen_inbox(
                s.actors@[i],
            ) == jobs[k].inbox@;
        let w = choose|w: int| 0 <= w < ids.len() && ids[w] == s.actors@[i].id;
        assert(s.has_follow(ids[w], reactor) || s.has_post_author(post, ids[w]));
    }
}

/// For a follower-only recipient set, the computed jobs address every
/// follower's endpoint and only follower endpoints.
pub proof fn lemma_follower_delivery(s: Store, ids: Seq<u64>, followed: u64, jobs: Seq<DeliveryJob>)
    requires
        forall|k: int| 0 <= k < ids.len() ==> s.has_follow(#[trigger] ids[k], followed),
        forall|f: u64| #[trigger] s.has_follow(f, followed) ==> ids.contains(f),
        forall|i: int|
            0 <= i < s.actors@.len() && ids.contains(#[trigger] s.actors@[i].id)
                ==> jobs_contain_inbox(jobs, chosen_inbox(s.actors@[i])),
        forall|k: int|
            0 <= k < jobs.len() ==> inbox_of_recipient(s, ids, (#[trigger] jobs[k]).inbox@),
    ensures
        forall|i: int|
            0 <= i < s.actors@.len() && s.has_follow((#[trigger] s.actors@[i]).id, followed)
                ==> jobs_contain_inbox(jobs, chosen_inbox(s.actors@[i])),
        forall|k: int|
            0 <= k < jobs.len() ==> endpoint_of_follower(s, followed, (#[trigger] jobs[k]).inbox@),
{
    assert forall|k: int| 0 <= k < jobs.len() implies endpoint_of_follower(
        s,
        followed,
        (#[trigger] jobs[k]).inbox@,
    ) by {
        assert(inbox_of_recipient(s, ids, jobs[k].inbox@));
        let i = choose|i: int|
            0 <= i < s.actors@.len() && ids.contains(#[trigger] s.actors@[i].id) && chosen_inbox(
                s.actors@[i],
            ) == jobs[k].inbox@;
        let w = choose|w: int| 0 <= w < ids.len() && ids[w] == s.actors@[i].id;
        assert(s.has_follow(ids[w], followed));
    }
}

} // verus!