//! Domain entities exchanged and stored by the protocol engine.

use crate::crypto::public_key_of;
use vstd::prelude::*;

verus! {

/// Rights of a local account.
#[derive(Clone, Copy, Debug, PartialEq, Eq, Structural)]
pub enum Role {
    Normal,
    Moderator,
    Admin,
}

/// The server an actor belongs to. A blocked instance's inbound activities
/// are silently discarded, and no fetch is ever made towards it.
pub struct Instance {
    pub id: u64,
    pub domain: String,
    pub name: String,
    pub local: bool,
    pub blocked: bool,
    pub open_registrations: bool,
}

/// An identity participating in the protocol, local or remote.
///
/// The URI is globally unique and immutable once assigned; the key material
/// may be replaced (key rotation) but the URI never changes. Remote actors
/// are never physically deleted, only tombstoned by an explicit delete.
pub struct Actor {
    pub id: u64,
    pub uri: String,
    pub username: String,
    pub public_key: Vec<u8>,
    /// Only local actors hold their secret key.
    pub secret_key: Option<Vec<u8>>,
    pub inbox_uri: String,
    pub shared_inbox_uri: Option<String>,
    pub instance_id: u64,
    pub role: Role,
    /// False until a full profile of a remote actor has been fetched;
    /// a discovery event then schedules a profile refresh.
    pub fully_fetched: bool,
    pub tombstoned: bool,
}

impl Actor {
    /// A held secret key is 32 bytes and matches the public key.
    pub open spec fn keys_wf(self) -> bool {
        match self.secret_key {
            Some(sk) => sk@.len() == 32 && self.public_key@ == public_key_of(sk@),
            None => true,
        }
    }

    /// Whether a discovery event should trigger a profile refresh.
    pub fn needs_update(&self) -> (r: bool)
        ensures
            r == !self.fully_fetched,
    {
        !self.fully_fetched
    }

    pub fn is_admin(&self) -> (r: bool)
        ensures
            r == (self.role == Role::Admin),
    {
        self.role == Role::Admin
    }

    pub fn is_moderator(&self) -> (r: bool)
        ensures
            r == (self.role == Role::Moderator || self.role == Role::Admin),
    {
        self.role == Role::Moderator || self.role == Role::Admin
    }
}

/// A fetched profile document describing a remote actor: what an outbound
/// resolution returns before it is persisted.
#[derive(Clone)]
pub struct ActorDoc {
    pub uri: String,
    /// The declared document type, checked against an expected type.
    pub kind: String,
    pub username: String,
    pub public_key: Vec<u8>,
    pub inbox_uri: String,
    pub shared_inbox_uri: Option<String>,
    pub domain: String,
}

/// A published article held by the store.
pub struct Post {
    pub id: u64,
    pub uri: String,
    pub title: String,
    pub content: String,
    pub published: bool,
    pub tombstoned: bool,
}

/// The embedded object of a create or update activity.
#[derive(Clone)]
pub struct ArticleDoc {
    pub uri: String,
    pub title: String,
    pub content: String,
}

/// Join record attributing a post to an author.
pub struct PostAuthor {
    pub id: u64,
    pub post_id: u64,
    pub author_id: u64,
}

/// Fields of a post-author attribution about to be inserted.
pub struct NewPostAuthor {
    pub post_id: u64,
    pub author_id: u64,
}

/// A follow relation between two actors.
pub struct Follow {
    pub id: u64,
    pub follower_id: u64,
    pub following_id: u64,
    pub ap_url: String,
}

/// A like of a post by an actor.
pub struct Like {
    pub id: u64,
    pub actor_id: u64,
    pub post_id: u64,
}

/// A reshare of a post by an actor.
pub struct Reshare {
    pub id: u64,
    pub actor_id: u64,
    pub post_id: u64,
}

/// Durable dedup ledger entry: the activity URI was already applied.
/// Consulted before every dispatch; never mutated.
pub struct InboxRecord {
    pub activity_uri: String,
}

/// What an undo refers to: a prior effect identified by its actor and
/// object pair, never by the original activity URI.
#[derive(Clone)]
pub enum UndoTarget {
    Follow { target_uri: String },
    Like { object_uri: String },
    Announce { object_uri: String },
}

/// The per-variant payload of an activity.
#[derive(Clone)]
pub enum ActivityKind {
    Create { object: ArticleDoc },
    Update { object: ArticleDoc },
    Delete { object_uri: String },
    Follow { target_uri: String },
    Accept { follow_activity_uri: String },
    Undo { undone: UndoTarget },
    Like { object_uri: String },
    Announce { object_uri: String },
}

/// A typed, signed message: the unit the inbox dispatches. The identifying
/// URI is the idempotency key; an activity is applied at most once.
#[derive(Clone)]
pub struct Activity {
    pub id: String,
    pub actor_uri: String,
    pub kind: ActivityKind,
    pub published_at: u64,
}

/// The kinds of "something happened to you" events handed to the
/// notification subsystem; the engine does not format them.
#[derive(Clone, Copy, Debug, PartialEq, Eq, Structural)]
pub enum NotificationKind {
    Follow,
    Like,
    Reshare,
    Mention,
    Comment,
}

/// An event for the notification collaborator.
pub struct Notification {
    pub kind: NotificationKind,
    /// Who acted.
    pub actor_id: u64,
    /// Whom it happened to.
    pub target_actor_id: u64,
    pub post_id: Option<u64>,
}

} // verus!
