use vstd::prelude::*;

use crate::model::{NoteUpdate, NoteImport, NoteView, TombstoneView};
use crate::store::{
    created_view, deleted_since, has_note, imported, is_delta, is_key, keys_unique, note_index,
    updated_view,
};

verus! {

/// A created note is pulled by a sync exactly when the sync starts before its
/// creation time: a sync from any earlier point lists it, and one from its
/// creation time or later does not.
pub proof fn lemma_created_note_pulled_iff_earlier(
    notes: Seq<NoteView>,
    owner: Seq<char>,
    id: Seq<char>,
    title: Seq<char>,
    created_at: int,
    since: int,
    changed: Seq<NoteView>,
)
    requires
        is_delta(notes.push(created_view(owner, id, title, created_at)), owner, since, changed),
    ensures
        changed.contains(created_view(owner, id, title, created_at)) <==> since < created_at,
{
    let v = created_view(owner, id, title, created_at);
    let s = notes.push(v);
    assert(s[notes.len() as int] == v);
    assert(s.contains(v));
}

/// A sync never lists a note whose last change is at or before its start.
pub proof fn lemma_unchanged_note_not_pulled(
    notes: Seq<NoteView>,
    owner: Seq<char>,
    since: int,
    changed: Seq<NoteView>,
    n: NoteView,
)
    requires
        is_delta(notes, owner, since, changed),
        n.updated_at <= since,
    ensures
        !changed.contains(n),
{
}

/// The tombstones of `owner` written after `since` name every such id.
proof fn lemma_deleted_since_contains(ts: Seq<TombstoneView>, owner: Seq<char>, since: int, k: int)
    requires
        0 <= k < ts.len(),
        ts[k].user_id == owner,
        ts[k].deleted_at > since,
    ensures
        deleted_since(ts, owner, since).contains(ts[k].note_id),
    decreases ts.len(),
{
    let rest = deleted_since(ts.drop_last(), owner, since);
    if k == ts.len() - 1 {
        assert(deleted_since(ts, owner, since) == rest.push(ts[k].note_id));
        assert(rest.push(ts[k].note_id)[rest.len() as int] == ts[k].note_id);
    } else {
        assert(ts.drop_last()[k] == ts[k]);
        lemma_deleted_since_contains(ts.drop_last(), owner, since, k);
        let j = choose|j: int| 0 <= j < rest.len() && rest[j] == ts[k].note_id;
        if ts.last().user_id == owner && ts.last().deleted_at > since {
            assert(rest.push(ts.last().note_id)[j] == ts[k].note_id);
        }
    }
}

/// After a note is deleted, a sync that starts before the deletion lists its
/// id among the deleted ones and lists no note under that id in the changes.
pub proof fn lemma_deleted_note_reported(
    notes: Seq<NoteView>,
    tombstones: Seq<TombstoneView>,
    owner: Seq<char>,
    id: Seq<char>,
    deleted_at: int,
    since: int,
    changed: Seq<NoteView>,
)
    requires
        keys_unique(notes),
        has_note(notes, owner, id),
        since < deleted_at,
        is_delta(notes.remove(note_index(notes, owner, id)), owner, since, changed),
    ensures
        deleted_since(
            tombstones.push(TombstoneView { note_id: id, user_id: owner, deleted_at }),
            owner,
            since,
        ).contains(id),
        forall|j: int| 0 <= j < changed.len() ==> !is_key(#[trigger] changed[j], owner, id),
{
    let ts = tombstones.push(TombstoneView { note_id: id, user_id: owner, deleted_at });
    lemma_deleted_since_contains(ts, owner, since, tombstones.len() as int);
    let i = note_index(notes, owner, id);
    let rest = notes.remove(i);
    assert forall|j: int| 0 <= j < changed.len() implies !is_key(#[trigger] changed[j], owner, id) by {
        assert(changed.contains(changed[j]));
        assert(rest.contains(changed[j]));
        let k = choose|k: int| 0 <= k < rest.len() && rest[k] == changed[j];
        let kk = if k < i { k } else { k + 1 };
        assert(rest[k] == notes[kk]);
        assert(kk != i);
    }
}

/// An update that sets only the content keeps the title.
pub proof fn lemma_content_update_keeps_title(n: NoteView, u: NoteUpdate, content: String)
    requires
        u.title.is_none(),
        u.content == Some(content),
    ensures
        updated_view(n, u).title == n.title,
        updated_view(n, u).content == content@,
{
}

/// Importing the same note twice leaves the notes as importing it once.
pub proof fn lemma_import_idempotent(notes: Seq<NoteView>, owner: Seq<char>, id: Seq<char>, note: NoteImport)
    requires
        keys_unique(notes),
    ensures
        imported(imported(notes, owner, id, note), owner, id, note) == imported(notes, owner, id, note),
{
    let once = imported(notes, owner, id, note);
    let i = if has_note(notes, owner, id) { note_index(notes, owner, id) } else { notes.len() as int };
    assert(is_key(once[i], owner, id));
    assert(has_note(once, owner, id));
    let j = note_index(once, owner, id);
    if j != i {
        assert(is_key(notes[j], owner, id));
        if has_note(notes, owner, id) {
            assert(notes[i] != notes[j] || i == j);
        }
        assert(false);
    }
    assert(once.update(i, once[i]) =~= once);
}

} // verus!
