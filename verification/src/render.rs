//! Canonical rendering of activities.
//!
//! An activity is serialized once, to a deterministic line-based form:
//! each field on a `name: value` line with newlines and backslashes in the
//! value escaped. The rendering is the payload an embedded object-level
//! signature covers, and the body a broadcast delivers.

use crate::model::{Activity, ActivityKind, ArticleDoc, UndoTarget};
use crate::signing::push_char;
use vstd::prelude::*;

verus! {

/// How one character is escaped in a rendered value.
pub open spec fn esc_char(c: char) -> Seq<char> {
    if c == '\\' {
        seq!['\\', '\\']
    } else if c == '\n' {
        seq!['\\', 'n']
    } else {
        seq![c]
    }
}

/// A rendered value: every character escaped.
pub open spec fn esc(s: Seq<char>) -> Seq<char>
    decreases s.len(),
{
    if s.len() == 0 {
        Seq::<char>::empty()
    } else {
        esc(s.drop_last()) + esc_char(s.last())
    }
}

/// Escape the newlines and backslashes of a value.
pub fn escape(s: &str) -> (r: String)
    ensures
        r@ == esc(s@),
{
    let n = s.unicode_len();
    let mut r = String::new();
    let mut i: usize = 0;
    proof {
        assert(s@.take(0) =~= Seq::<char>::empty());
    }
    while i < n
        invariant
            n == s@.len(),
            i <= n,
            r@ == esc(s@.take(i as int)),
        decreases n - i,
    {
        let c = s.get_char(i);
        if c == '\\' {
            r.append("\\\\");
            proof {
                reveal_strlit("\\\\");
            }
        } else if c == '\n' {
            r.append("\\n");
            proof {
                reveal_strlit("\\n");
            }
        } else {
            push_char(&mut r, c);
        }
        proof {
            assert(s@.take(i + 1).drop_last() =~= s@.take(i as int));
            assert(s@.take(i + 1).last() == s@[i as int]);
            assert(r@ =~= esc(s@.take(i + 1)));
        }
        i += 1;
    }
    proof {
        assert(s@.take(n as int) =~= s@);
    }
    r
}

/// One rendered line.
pub open spec fn line(name: Seq<char>, value: Seq<char>) -> Seq<char> {
    name + ": "@ + esc(value) + "\n"@
}

/// The lines specific to an activity's payload.
pub open spec fn render_kind(kind: ActivityKind) -> Seq<char> {
    match kind {
        ActivityKind::Create { object } => line("type"@, "Create"@) + render_article(object),
        ActivityKind::Update { object } => line("type"@, "Update"@) + render_article(object),
        ActivityKind::Delete { object_uri } => line("type"@, "Delete"@) + line(
            "object"@,
            object_uri@,
        ),
        ActivityKind::Follow { target_uri } => line("type"@, "Follow"@) + line(
            "object"@,
            target_uri@,
        ),
        ActivityKind::Accept { follow_activity_uri } => line("type"@, "Accept"@) + line(
            "object"@,
            follow_activity_uri@,
        ),
        ActivityKind::Undo { undone } => line("type"@, "Undo"@) + render_undo(undone),
        ActivityKind::Like { object_uri } => line("type"@, "Like"@) + line("object"@, object_uri@),
        ActivityKind::Announce { object_uri } => line("type"@, "Announce"@) + line(
            "object"@,
            object_uri@,
        ),
    }
}

/// The lines of an embedded article object.
pub open spec fn render_article(object: ArticleDoc) -> Seq<char> {
    line("object"@, object.uri@) + line("title"@, object.title@) + line(
        "content"@,
        object.content@,
    )
}

/// The lines describing what an undo reverses.
pub open spec fn render_undo(undone: UndoTarget) -> Seq<char> {
    match undone {
        UndoTarget::Follow { target_uri } => line("undo"@, "Follow"@) + line(
            "object"@,
            target_uri@,
        ),
        UndoTarget::Like { object_uri } => line("undo"@, "Like"@) + line("object"@, object_uri@),
        UndoTarget::Announce { object_uri } => line("undo"@, "Announce"@) + line(
            "object"@,
            object_uri@,
        ),
    }
}

/// The canonical rendering of a whole activity.
pub open spec fn render_activity(a: Activity) -> Seq<char> {
    line("id"@, a.id@) + line("actor"@, a.actor_uri@) + render_kind(a.kind)
}

/// Append `name: value` with the value escaped.
fn push_line(out: &mut String, name: &str, value: &str)
    ensures
        final(out)@ == old(out)@ + line(name@, value@),
{
    out.append(name);
    out.append(": ");
    let escaped = escape(value);
    out.append(escaped.as_str());
    out.append("\n");
    proof {
        reveal_strlit(": ");
        reveal_strlit("\n");
        assert(final(out)@ =~= old(out)@ + line(name@, value@));
    }
}

/// Serialize an activity to its canonical form.
pub fn render(a: &Activity) -> (r: String)
    ensures
        r@ == render_activity(*a),
{
    let mut out = String::new();
    push_line(&mut out, "id", a.id.as_str());
    push_line(&mut out, "actor", a.actor_uri.as_str());
    proof {
        reveal_strlit("id");
        reveal_strlit("actor");
        reveal_strlit("type");
        reveal_strlit("object");
        reveal_strlit("title");
        reveal_strlit("content");
        reveal_strlit("undo");
        reveal_strlit("Create");
        reveal_strlit("Update");
        reveal_strlit("Delete");
        reveal_strlit("Follow");
        reveal_strlit("Accept");
        reveal_strlit("Undo");
        reveal_strlit("Like");
        reveal_strlit("Announce");
    }
    match &a.kind {
        ActivityKind::Create { object } => {
            push_line(&mut out, "type", "Create");
            push_line(&mut out, "object", object.uri.as_str());
            push_line(&mut out, "title", object.title.as_str());
            push_line(&mut out, "content", object.content.as_str());
        },
        ActivityKind::Update { object } => {
            push_line(&mut out, "type", "Update");
            push_line(&mut out, "object", object.uri.as_str());
            push_line(&mut out, "title", object.title.as_str());
            push_line(&mut out, "content", object.content.as_str());
        },
        ActivityKind::Delete { object_uri } => {
            push_line(&mut out, "type", "Delete");
            push_line(&mut out, "object", object_uri.as_str());
        },
        ActivityKind::Follow { target_uri } => {
            push_line(&mut out, "type", "Follow");
            push_line(&mut out, "object", target_uri.as_str());
        },
        ActivityKind::Accept { follow_activity_uri } => {
            push_line(&mut out, "type", "Accept");
            push_line(&mut out, "object", follow_activity_uri.as_str());
        },
        ActivityKind::Undo { undone } => {
            push_line(&mut out, "type", "Undo");
            match undone {
                UndoTarget::Follow { target_uri } => {
                    push_line(&mut out, "undo", "Follow");
                    push_line(&mut out, "object", target_uri.as_str());
                },
                UndoTarget::Like { object_uri } => {
                    push_line(&mut out, "undo", "Like");
                    push_line(&mut out, "object", object_uri.as_str());
                },
                UndoTarget::Announce { object_uri } => {
                    push_line(&mut out, "undo", "Announce");
                    push_line(&mut out, "object", object_uri.as_str());
                },
            }
        },
        ActivityKind::Like { object_uri } => {
            push_line(&mut out, "type", "Like");
            push_line(&mut out, "object", object_uri.as_str());
        },
        ActivityKind::Announce { object_uri } => {
            push_line(&mut out, "type", "Announce");
            push_line(&mut out, "object", object_uri.as_str());
        },
    }
    proof {
        assert(out@ =~= render_activity(*a));
    }
    out
}

} // verus!
