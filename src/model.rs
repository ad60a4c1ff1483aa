use vstd::prelude::*;

use crate::time::Timestamp;

verus! {

/// The text of each string, in order.
pub open spec fn texts(tags: Seq<String>) -> Seq<Seq<char>> {
    tags.map_values(|t: String| t@)
}

/// The set of tags that a list names.
pub open spec fn tag_set(tags: Seq<String>) -> Set<Seq<char>> {
    texts(tags).to_set()
}

/// A note as the store keeps it and hands it out, tags included.
#[derive(Clone, Debug)]
pub struct Note {
    pub id: String,
    pub user_id: String,
    pub title: String,
    pub content: String,
    pub tags: Vec<String>,
    pub created_at: Timestamp,
    pub updated_at: Timestamp,
}

/// What a note means: its fields as mathematical values, its tags as a set.
pub struct NoteView {
    pub id: Seq<char>,
    pub user_id: Seq<char>,
    pub title: Seq<char>,
    pub content: Seq<char>,
    pub tags: Set<Seq<char>>,
    pub created_at: int,
    pub updated_at: int,
}

impl View for Note {
    type V = NoteView;

    open spec fn view(&self) -> NoteView {
        NoteView {
            id: self.id@,
            user_id: self.user_id@,
            title: self.title@,
            content: self.content@,
            tags: tag_set(self.tags@),
            created_at: self.created_at.value(),
            updated_at: self.updated_at.value(),
        }
    }
}

impl Note {
    /// The tag list holds each tag once.
    pub open spec fn wf(&self) -> bool {
        texts(self.tags@).no_duplicates()
    }

    /// A copy of this note.
    pub fn duplicate(&self) -> (r: Note)
        ensures
            r@ == self@,
            r.tags@ == self.tags@,
    {
        Note {
            id: self.id.clone(),
            user_id: self.user_id.clone(),
            title: self.title.clone(),
            content: self.content.clone(),
            tags: copy_strings(&self.tags),
            created_at: self.created_at,
            updated_at: self.updated_at,
        }
    }
}

/// A copy of a list of strings.
pub fn copy_strings(v: &Vec<String>) -> (r: Vec<String>)
    ensures
        r@ == v@,
{
    let mut out: Vec<String> = Vec::new();
    let mut i: usize = 0;
    while i < v.len()
        invariant
            0 <= i <= v.len(),
            out@ == v@.take(i as int),
        decreases v.len() - i,
    {
        out.push(v[i].clone());
        proof {
            assert(out@ =~= v@.take(i + 1));
        }
        i += 1;
    }
    assert(v@.take(v.len() as int) =~= v@);
    out
}

/// The fields of a new note that the caller supplies.
#[derive(Clone, Debug)]
pub struct NoteCreate {
    pub title: String,
    pub created_at: Timestamp,
}

/// A partial update: a field that is `None` keeps its stored value; `tags`,
/// when present, replaces the whole tag set.
#[derive(Clone, Debug)]
pub struct NoteUpdate {
    pub title: Option<String>,
    pub content: Option<String>,
    pub tags: Option<Vec<String>>,
    pub updated_at: Timestamp,
}

/// A full note as a client sends it for an upsert.
#[derive(Clone, Debug)]
pub struct NoteImport {
    pub title: String,
    pub content: String,
    pub tags: Vec<String>,
    pub created_at: Timestamp,
    pub updated_at: Timestamp,
}

/// A pull request from a device: the cursor it last received, if any.
#[derive(Clone, Debug)]
pub struct SyncRequest {
    pub last_sync_time: Option<Timestamp>,
    pub device_id: String,
}

/// The delta handed to a device, and its next cursor.
#[derive(Clone, Debug)]
pub struct SyncResponse {
    pub notes: Vec<Note>,
    pub deleted_note_ids: Vec<String>,
    pub current_time: Timestamp,
}

/// A record that a user deleted a note at some instant.
#[derive(Clone, Debug)]
pub struct Tombstone {
    pub note_id: String,
    pub user_id: String,
    pub deleted_at: Timestamp,
}

pub struct TombstoneView {
    pub note_id: Seq<char>,
    pub user_id: Seq<char>,
    pub deleted_at: int,
}

impl View for Tombstone {
    type V = TombstoneView;

    open spec fn view(&self) -> TombstoneView {
        TombstoneView {
            note_id: self.note_id@,
            user_id: self.user_id@,
            deleted_at: self.deleted_at.value(),
        }
    }
}

/// The tags of `tags`, each once, in order of first appearance.
pub fn unique_tags(tags: &Vec<String>) -> (r: Vec<String>)
    ensures
        texts(r@).no_duplicates(),
        tag_set(r@) == tag_set(tags@),
{
    let mut out: Vec<String> = Vec::new();
    let mut i: usize = 0;
    while i < tags.len()
        invariant
            0 <= i <= tags.len(),
            texts(out@).no_duplicates(),
            texts(out@).to_set() == texts(tags@.take(i as int)).to_set(),
        decreases tags.len() - i,
    {
        let t = &tags[i];
        let mut found = false;
        let mut j: usize = 0;
        while j < out.len()
            invariant
                0 <= j <= out.len(),
                found == (exists|k: int| 0 <= k < j && out@[k]@ == t@),
            decreases out.len() - j,
        {
            if out[j] == *t {
                found = true;
            }
            j += 1;
        }
        proof {
            assert(texts(tags@.take(i + 1)) =~= texts(tags@.take(i as int)).push(t@));
            texts(tags@.take(i as int)).lemma_push_to_set_commute(t@);
        }
        if found {
            proof {
                let k = choose|k: int| 0 <= k < out@.len() && out@[k]@ == t@;
                assert(texts(out@)[k] == t@);
                assert(texts(out@).to_set().contains(t@));
                assert(texts(out@).to_set().insert(t@) =~= texts(out@).to_set());
            }
        } else {
            let ghost before = out@;
            out.push(t.clone());
            proof {
                assert(texts(out@) =~= texts(before).push(t@));
                texts(before).lemma_push_to_set_commute(t@);
            }
        }
        i += 1;
    }
    assert(tags@.take(tags.len() as int) =~= tags@);
    out
}

} // verus!
