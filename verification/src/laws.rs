//! Protocol laws: properties that tie several functions of the engine
//! together, stated over the same specifications their contracts use.

use crate::crypto::public_key_of;
use crate::inbox::{dispatch_effect, request_verified, IncomingRequest};
use crate::model::{ActivityKind, Activity, Actor, UndoTarget};
use crate::render::render_activity;
use crate::signatures::{http_signature_ok, payload_sig_ok};
use crate::store::Store;
use vstd::prelude::*;

verus! {

/// Delivering the same activity URI twice has exactly one set of effects.
///
/// An applied dispatch records the activity URI in the dedup ledger, so a
/// later dispatch of an activity with the same URI starts from a store
/// whose ledger holds it: by the dispatch contract that delivery settles
/// as a duplicate and leaves the store untouched.
pub proof fn lemma_applied_then_duplicate(
    pre: Store,
    post: Store,
    act: Activity,
    second: Activity,
)
    requires
        !pre.has_record(act.id@),
        forall|u: Seq<char>| #[trigger] post.has_record(u) == (pre.has_record(u) || u == act.id@),
        second.id@ == act.id@,
    ensures
        post.has_record(second.id@),
{
}

/// An undo whose prior effect was never recorded is a safe no-op: when the
/// sender never liked any post under the undone URI, an applied undo
/// leaves the like relation exactly as it was. No like is lost and none is
/// invented, so no negative-count state can arise.
pub proof fn lemma_undo_without_prior_effect(
    pre: Store,
    post: Store,
    act: Activity,
    sender_id: u64,
)
    requires
        dispatch_effect(pre, post, act, sender_id),
        match act.kind {
            ActivityKind::Undo { undone: UndoTarget::Like { .. } } => forall|p: u64|
                !pre.has_like(sender_id, p),
            _ => false,
        },
    ensures
        forall|a: u64, p: u64| #[trigger] post.has_like(a, p) == pre.has_like(a, p),
{
    match act.kind {
        ActivityKind::Undo { undone } => {
            match undone {
                UndoTarget::Like { object_uri } => {
                    assert forall|a: u64, p: u64| #[trigger]
                        post.has_like(a, p) == pre.has_like(a, p) by {
                        if pre.has_like(a, p) {
                            assert(a != sender_id);
                        }
                    }
                },
                _ => {
                    assert(false);
                },
            }
        },
        _ => {
            assert(false);
        },
    }
}

/// A request signed with the actor's current key is trusted: the
/// HTTP-header trust path alone is sufficient.
pub proof fn lemma_signed_request_verifies(req: IncomingRequest, a: Actor, secret: Seq<u8>)
    requires
        a.public_key@ == public_key_of(secret),
        http_signature_ok(
            public_key_of(secret),
            req.headers@,
            req.signature.headers.deep_view(),
            req.signature.signature@,
        ),
    ensures
        request_verified(req, a),
{
}

/// An embedded object-level signature under the actor's current key is
/// equally sufficient: trust holds without regard to the request headers,
/// which defends against signature-stripping intermediaries.
pub proof fn lemma_embedded_signature_suffices(req: IncomingRequest, a: Actor, sig: String)
    requires
        req.embedded_signature == Some(sig),
        payload_sig_ok(a.public_key@, render_activity(req.activity), sig@),
    ensures
        request_verified(req, a),
{
}

} // verus!
