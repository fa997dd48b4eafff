//! Actor resolution: local-first lookup, then a signed fetch performed by
//! the caller, whose result is validated and persisted here.
//!
//! The network call itself lives outside the library; resolution is split
//! into a prepare step that decides whether a fetch is allowed and a
//! commit step that validates and persists what came back. A URI owned by
//! a blocked instance fails fast with `Blocked` before any fetch.

use crate::errors::Error;
use crate::model::ActorDoc;
use crate::store::Store;
use crate::uris::{spec_uri_domain, uri_domain};
use vstd::prelude::*;

verus! {

/// What a resolution needs next.
pub enum ResolveStep {
    /// The store already holds the entity.
    Local { idx: usize },
    /// Perform a signed fetch of this URI and commit the document.
    NeedFetch { uri: String },
}

/// Local-first resolution. A miss asks for a fetch unless the owning
/// instance is blocked, in which case it fails fast with `Blocked` and no
/// network call is ever made. A forced refetch skips the local hit but
/// honours the same blocked gate.
pub fn resolve_prepare(s: &Store, uri: &String, force_refetch: bool) -> (r: Result<
    ResolveStep,
    Error,
>)
    ensures
        match r {
            Ok(ResolveStep::Local { idx }) => {
                &&& !force_refetch
                &&& idx < s.actors@.len()
                &&& s.actors@[idx as int].uri@ == uri@
            },
            Ok(ResolveStep::NeedFetch { uri: u }) => {
                &&& u@ == uri@
                &&& force_refetch || !s.has_actor_uri(uri@)
                &&& match spec_uri_domain(uri@) {
                    Some(d) => !s.domain_is_blocked(d),
                    None => true,
                }
            },
            Err(e) => {
                &&& e == Error::Blocked
                &&& exists|d: Seq<char>|
                    spec_uri_domain(uri@) == Some(d) && s.domain_is_blocked(d)
                &&& (force_refetch || !s.has_actor_uri(uri@))
            },
        },
{
    if !force_refetch {
        if let Some(idx) = s.find_actor_by_uri(uri) {
            return Ok(ResolveStep::Local { idx });
        }
    }
    match uri_domain(uri.as_str()) {
        Some(d) => {
            if s.domain_blocked(&d) {
                return Err(Error::Blocked);
            }
        },
        None => {},
    }
    Ok(ResolveStep::NeedFetch { uri: uri.clone() })
}

/// Whether a fetched document is acceptable for a requested URI and an
/// expected declared type.
pub open spec fn doc_acceptable(
    doc: ActorDoc,
    uri: Seq<char>,
    expected_kind: Option<Seq<char>>,
) -> bool {
    &&& doc.uri@ == uri
    &&& match expected_kind {
        Some(k) => doc.kind@ == k,
        None => true,
    }
}

/// Validate a fetched document: transport failures surface as
/// `FetchError`, a document describing another URI as well; a declared
/// type other than the expected one fails with `TypeMismatch`.
fn validate_doc<'a>(
    fetched: Option<&'a ActorDoc>,
    uri: &String,
    expected_kind: Option<&String>,
) -> (r: Result<&'a ActorDoc, Error>)
    ensures
        match r {
            Ok(doc) => {
                &&& fetched == Some(doc)
                &&& doc_acceptable(*doc, uri@, match expected_kind {
                    Some(k) => Some(k@),
                    None => None,
                })
            },
            Err(e) => match fetched {
                None => e == Error::FetchError,
                Some(doc) => {
                    ||| (e == Error::FetchError && doc.uri@ != uri@)
                    ||| (e == Error::TypeMismatch && doc.uri@ == uri@ && match expected_kind {
                        Some(k) => doc.kind@ != k@,
                        None => false,
                    })
                },
            },
        },
{
    let doc = match fetched {
        Some(doc) => doc,
        None => {
            return Err(Error::FetchError);
        },
    };
    if !doc.uri.eq(uri) {
        return Err(Error::FetchError);
    }
    if let Some(k) = expected_kind {
        if !doc.kind.eq(k) {
            return Err(Error::TypeMismatch);
        }
    }
    Ok(doc)
}

/// Commit the result of a resolution fetch: validate the document and
/// persist the entity, insert-if-absent. Returns the index of the stored
/// actor.
pub fn resolve_commit(
    s: &mut Store,
    uri: &String,
    expected_kind: Option<&String>,
    fetched: Option<&ActorDoc>,
) -> (r: Result<usize, Error>)
    requires
        old(s).wf(),
        old(s).next_id < u64::MAX - 1,
    ensures
        final(s).wf(),
        old(s).next_id <= final(s).next_id,
        final(s).next_id <= old(s).next_id + 2,
        crate::store::same_but_actors_instances(*old(s), *final(s)),
        match r {
            Ok(idx) => {
                &&& match fetched {
                    Some(doc) => doc_acceptable(*doc, uri@, match expected_kind {
                        Some(k) => Some(k@),
                        None => None,
                    }),
                    None => false,
                }
                &&& idx < final(s).actors@.len()
                &&& final(s).actors@[idx as int].uri@ == uri@
                &&& final(s).has_actor_uri(uri@)
                &&& old(s).has_actor_uri(uri@) ==> *final(s) == *old(s)
                &&& !old(s).has_actor_uri(uri@) ==> {
                    &&& final(s).actors@ == old(s).actors@.push(final(s).actors@[idx as int])
                    &&& match fetched {
                        Some(doc) => final(s).actors@[idx as int].public_key@ == doc.public_key@
                            && final(s).actors@[idx as int].username@ == doc.username@
                            && final(s).actors@[idx as int].inbox_uri@ == doc.inbox_uri@
                            && final(s).actors@[idx as int].fully_fetched == true,
                        None => false,
                    }
                }
                &&& forall|u: Seq<char>|
                    #[trigger] final(s).has_actor_uri(u) == (old(s).has_actor_uri(u) || u == uri@)
            },
            Err(e) => {
                &&& *final(s) == *old(s)
                &&& match fetched {
                    None => e == Error::FetchError,
                    Some(doc) => {
                        ||| (e == Error::FetchError && doc.uri@ != uri@)
                        ||| (e == Error::TypeMismatch && doc.uri@ == uri@ && match expected_kind {
                            Some(k) => doc.kind@ != k@,
                            None => false,
                        })
                    },
                }
            },
        },
{
    let doc = match validate_doc(fetched, uri, expected_kind) {
        Ok(doc) => doc,
        Err(e) => {
            return Err(e);
        },
    };
    if let Some(idx) = s.find_actor_by_uri(uri) {
        proof {
            assert((old(s).actors@[idx as int]).uri@ == uri@);
            assert forall|u: Seq<char>| #[trigger]
                final(s).has_actor_uri(u) == (old(s).has_actor_uri(u) || u == uri@) by {}
        }
        return Ok(idx);
    }
    let idx = s.insert_actor_from_doc(doc, true);
    Ok(idx)
}

/// Commit an authoritative refetch: overwrite the stored copy's mutable
/// fields (key material, display fields) while preserving identity and
/// relations; a URI the store does not hold yet is inserted instead. A
/// local account is never overwritten by a fetched document.
pub fn refetch_commit(
    s: &mut Store,
    uri: &String,
    expected_kind: Option<&String>,
    fetched: Option<&ActorDoc>,
) -> (r: Result<usize, Error>)
    requires
        old(s).wf(),
        old(s).next_id < u64::MAX - 1,
    ensures
        final(s).wf(),
        old(s).next_id <= final(s).next_id,
        final(s).next_id <= old(s).next_id + 2,
        crate::store::same_but_actors_instances(*old(s), *final(s)),
        match r {
            Ok(idx) => {
                &&& match fetched {
                    Some(doc) => doc_acceptable(*doc, uri@, match expected_kind {
                        Some(k) => Some(k@),
                        None => None,
                    }),
                    None => false,
                }
                &&& idx < final(s).actors@.len()
                &&& final(s).actors@[idx as int].uri@ == uri@
                &&& final(s).has_actor_uri(uri@)
                &&& old(s).has_actor_uri(uri@) ==> {
                    &&& idx < old(s).actors@.len()
                    &&& old(s).actors@[idx as int].uri@ == uri@
                    &&& final(s).instances == old(s).instances
                    &&& final(s).next_id == old(s).next_id
                    &&& final(s).actors@ == old(s).actors@.update(
                        idx as int,
                        final(s).actors@[idx as int],
                    )
                    &&& final(s).actors@[idx as int].id == old(s).actors@[idx as int].id
                    &&& final(s).actors@[idx as int].uri == old(s).actors@[idx as int].uri
                    &&& old(s).actors@[idx as int].secret_key is Some ==> *final(s) == *old(s)
                    &&& old(s).actors@[idx as int].secret_key is None ==> match fetched {
                        Some(doc) => {
                            &&& final(s).actors@[idx as int].public_key@ == doc.public_key@
                            &&& final(s).actors@[idx as int].username@ == doc.username@
                            &&& final(s).actors@[idx as int].inbox_uri@ == doc.inbox_uri@
                            &&& final(s).actors@[idx as int].fully_fetched == true
                            &&& final(s).actors@[idx as int].secret_key is None
                            &&& final(s).actors@[idx as int].instance_id == old(
                                s,
                            ).actors@[idx as int].instance_id
                            &&& final(s).actors@[idx as int].role == old(
                                s,
                            ).actors@[idx as int].role
                            &&& final(s).actors@[idx as int].tombstoned == old(
                                s,
                            ).actors@[idx as int].tombstoned
                        },
                        None => false,
                    }
                }
                &&& !old(s).has_actor_uri(uri@) ==> {
                    &&& final(s).actors@ == old(s).actors@.push(final(s).actors@[idx as int])
                    &&& match fetched {
                        Some(doc) => final(s).actors@[idx as int].public_key@ == doc.public_key@
                            && final(s).actors@[idx as int].username@ == doc.username@
                            && final(s).actors@[idx as int].inbox_uri@ == doc.inbox_uri@
                            && final(s).actors@[idx as int].fully_fetched == true,
                        None => false,
                    }
                }
                &&& forall|u: Seq<char>|
                    #[trigger] final(s).has_actor_uri(u) == (old(s).has_actor_uri(u) || u == uri@)
            },
            Err(e) => {
                &&& *final(s) == *old(s)
                &&& match fetched {
                    None => e == Error::FetchError,
                    Some(doc) => {
                        ||| (e == Error::FetchError && doc.uri@ != uri@)
                        ||| (e == Error::TypeMismatch && doc.uri@ == uri@ && match expected_kind {
                            Some(k) => doc.kind@ != k@,
                            None => false,
                        })
                    },
                }
            },
        },
{
    let doc = match validate_doc(fetched, uri, expected_kind) {
        Ok(doc) => doc,
        Err(e) => {
            return Err(e);
        },
    };
    match s.find_actor_by_uri(uri) {
        Some(idx) => {
            proof {
                assert((old(s).actors@[idx as int]).uri@ == uri@);
            }
            if s.actors[idx].secret_key.is_some() {
                proof {
                    assert(final(s).actors@ =~= old(s).actors@.update(
                        idx as int,
                        final(s).actors@[idx as int],
                    ));
                    assert forall|u: Seq<char>| #[trigger]
                        final(s).has_actor_uri(u) == (old(s).has_actor_uri(u) || u == uri@) by {}
                }
                return Ok(idx);
            }
            s.refresh_actor_from_doc(idx, doc);
            proof {
                crate::store::lemma_same_actors_same_membership(*old(s), *old(s));
                assert forall|u: Seq<char>| #[trigger]
                    final(s).has_actor_uri(u) == (old(s).has_actor_uri(u) || u == uri@) by {
                    if old(s).has_actor_uri(u) {
                        let w = choose|i: int|
                            0 <= i < old(s).actors@.len() && #[trigger] old(s).actors@[i].uri@
                                == u;
                        assert(final(s).actors@[w].uri@ == u);
                    }
                    if final(s).has_actor_uri(u) {
                        let w = choose|i: int|
                            0 <= i < final(s).actors@.len() && #[trigger] final(s).actors@[i].uri@
                                == u;
                        assert(old(s).actors@[w].uri@ == u || u == uri@);
                    }
                }
            }
            Ok(idx)
        },
        None => {
            let idx = s.insert_actor_from_doc(doc, true);
            Ok(idx)
        },
    }
}

} // verus!
