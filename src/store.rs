use vstd::prelude::*;

use crate::error::SyncError;
use crate::model::{
    copy_strings, tag_set, texts, unique_tags, Note, NoteCreate, NoteImport, NoteUpdate,
    NoteView, Tombstone, TombstoneView,
};
use crate::time::Timestamp;

verus! {

pub open spec fn note_views(v: Seq<Note>) -> Seq<NoteView> {
    v.map_values(|n: Note| n@)
}

pub open spec fn tombstone_views(v: Seq<Tombstone>) -> Seq<TombstoneView> {
    v.map_values(|t: Tombstone| t@)
}

/// `n` is the note that `owner` keeps under `id`.
pub open spec fn is_key(n: NoteView, owner: Seq<char>, id: Seq<char>) -> bool {
    n.user_id == owner && n.id == id
}

/// Some note of `s` is kept by `owner` under `id`.
pub open spec fn has_note(s: Seq<NoteView>, owner: Seq<char>, id: Seq<char>) -> bool {
    exists|i: int| 0 <= i < s.len() && is_key(s[i], owner, id)
}

/// The position of the note that `owner` keeps under `id`.
pub open spec fn note_index(s: Seq<NoteView>, owner: Seq<char>, id: Seq<char>) -> int {
    choose|i: int| 0 <= i < s.len() && is_key(s[i], owner, id)
}

/// No two notes share both owner and id.
pub open spec fn keys_unique(s: Seq<NoteView>) -> bool {
    forall|i: int, j: int|
        0 <= i < s.len() && 0 <= j < s.len() && i != j ==> !is_key(s[i], s[j].user_id, s[j].id)
}

/// A freshly created note: no content, no tags, both times equal.
pub open spec fn created_view(owner: Seq<char>, id: Seq<char>, title: Seq<char>, at: int) -> NoteView {
    NoteView {
        id,
        user_id: owner,
        title,
        content: Seq::empty(),
        tags: Set::empty(),
        created_at: at,
        updated_at: at,
    }
}

/// The note that an import writes, whatever was stored before.
pub open spec fn imported_view(owner: Seq<char>, id: Seq<char>, note: NoteImport) -> NoteView {
    NoteView {
        id,
        user_id: owner,
        title: note.title@,
        content: note.content@,
        tags: tag_set(note.tags@),
        created_at: note.created_at.value(),
        updated_at: note.updated_at.value(),
    }
}

/// The notes after an import: the note kept under that key is replaced, or
/// the imported one is added at the end.
pub open spec fn imported(s: Seq<NoteView>, owner: Seq<char>, id: Seq<char>, note: NoteImport) -> Seq<NoteView> {
    let v = imported_view(owner, id, note);
    if has_note(s, owner, id) {
        s.update(note_index(s, owner, id), v)
    } else {
        s.push(v)
    }
}

/// `n` after the partial update `u`.
pub open spec fn updated_view(n: NoteView, u: NoteUpdate) -> NoteView {
    NoteView {
        id: n.id,
        user_id: n.user_id,
        title: match u.title {
            Some(t) => t@,
            None => n.title,
        },
        content: match u.content {
            Some(c) => c@,
            None => n.content,
        },
        tags: match u.tags {
            Some(ts) => tag_set(ts@),
            None => n.tags,
        },
        created_at: n.created_at,
        updated_at: u.updated_at.value(),
    }
}

/// `n` belongs to `owner` and changed after `since`.
pub open spec fn is_changed(n: NoteView, owner: Seq<char>, since: int) -> bool {
    n.user_id == owner && n.updated_at > since
}

/// Ascending by last change.
pub open spec fn sorted_by_update(c: Seq<NoteView>) -> bool {
    forall|i: int, j: int| 0 <= i <= j < c.len() ==> c[i].updated_at <= c[j].updated_at
}

/// `c` lists the notes of `s` that `owner` changed after `since`, each once,
/// in ascending order of their last change.
pub open spec fn is_delta(s: Seq<NoteView>, owner: Seq<char>, since: int, c: Seq<NoteView>) -> bool {
    &&& sorted_by_update(c)
    &&& c.no_duplicates()
    &&& forall|n: NoteView| c.contains(n) <==> (s.contains(n) && is_changed(n, owner, since))
}

/// The ids of `owner`'s tombstones written after `since`, in log order.
pub open spec fn deleted_since(ts: Seq<TombstoneView>, owner: Seq<char>, since: int) -> Seq<Seq<char>>
    decreases ts.len(),
{
    if ts.len() == 0 {
        Seq::empty()
    } else {
        let rest = deleted_since(ts.drop_last(), owner, since);
        let t = ts.last();
        if t.user_id == owner && t.deleted_at > since {
            rest.push(t.note_id)
        } else {
            rest
        }
    }
}

/// Inserting `x` adds exactly `x` to what a sequence contains.
proof fn lemma_insert_contains<A>(s: Seq<A>, p: int, x: A, y: A)
    requires
        0 <= p <= s.len(),
    ensures
        s.insert(p, x).contains(y) <==> (s.contains(y) || y == x),
{
    let t = s.insert(p, x);
    if s.contains(y) {
        let k = choose|k: int| 0 <= k < s.len() && s[k] == y;
        if k < p {
            assert(t[k] == y);
        } else {
            assert(t[k + 1] == y);
        }
    }
    if y == x {
        assert(t[p] == x);
    }
    if t.contains(y) {
        let k = choose|k: int| 0 <= k < t.len() && t[k] == y;
        if k < p {
            assert(s[k] == y);
        } else if k > p {
            assert(s[k - 1] == y);
        }
    }
}

/// Inserting an element that is absent keeps a sequence free of duplicates.
proof fn lemma_insert_no_duplicates<A>(s: Seq<A>, p: int, x: A)
    requires
        0 <= p <= s.len(),
        s.no_duplicates(),
        !s.contains(x),
    ensures
        s.insert(p, x).no_duplicates(),
{
    let t = s.insert(p, x);
    assert forall|i: int, j: int| 0 <= i < t.len() && 0 <= j < t.len() && i != j implies t[i] != t[j] by {
        if i == p {
            let jj = if j < p { j } else { j - 1 };
            assert(t[j] == s[jj]);
        } else if j == p {
            let ii = if i < p { i } else { i - 1 };
            assert(t[i] == s[ii]);
        } else {
            let ii = if i < p { i } else { i - 1 };
            let jj = if j < p { j } else { j - 1 };
            assert(t[i] == s[ii]);
            assert(t[j] == s[jj]);
        }
    }
}

pub struct StoreView {
    pub notes: Seq<NoteView>,
    pub tombstones: Seq<TombstoneView>,
}

/// The notes of all users, their tags, and the log of deletions.
///
/// A note is keyed by its owner together with its id: two users may each keep
/// a note under the same id.
pub struct NoteStore {
    notes: Vec<Note>,
    tombstones: Vec<Tombstone>,
}

impl View for NoteStore {
    type V = StoreView;

    closed spec fn view(&self) -> StoreView {
        StoreView { notes: note_views(self.notes@), tombstones: tombstone_views(self.tombstones@) }
    }
}

impl NoteStore {
    /// Each note's tags are listed once, and keys are unique.
    pub closed spec fn wf(&self) -> bool {
        &&& forall|i: int| 0 <= i < self.notes@.len() ==> #[trigger] self.notes@[i].wf()
        &&& keys_unique(self@.notes)
    }

    /// An empty store.
    pub fn new() -> (r: NoteStore)
        ensures
            r.wf(),
            r@.notes == Seq::<NoteView>::empty(),
            r@.tombstones == Seq::<TombstoneView>::empty(),
    {
        let r = NoteStore { notes: Vec::new(), tombstones: Vec::new() };
        assert(r@.notes =~= Seq::<NoteView>::empty());
        assert(r@.tombstones =~= Seq::<TombstoneView>::empty());
        r
    }

    /// Where the note that `user_id` keeps under `note_id` stands.
    fn find(&self, user_id: &String, note_id: &String) -> (r: Option<usize>)
        requires
            self.wf(),
        ensures
            match r {
                Some(i) => {
                    &&& has_note(self@.notes, user_id@, note_id@)
                    &&& i < self@.notes.len()
                    &&& i as int == note_index(self@.notes, user_id@, note_id@)
                },
                None => !has_note(self@.notes, user_id@, note_id@),
            },
    {
        let mut i: usize = 0;
        while i < self.notes.len()
            invariant
                self.wf(),
                0 <= i <= self.notes@.len(),
                forall|k: int| 0 <= k < i ==> !is_key(#[trigger] self@.notes[k], user_id@, note_id@),
            decreases self.notes@.len() - i,
        {
            if self.notes[i].user_id == *user_id && self.notes[i].id == *note_id {
                proof {
                    let s = self@.notes;
                    assert(is_key(s[i as int], user_id@, note_id@));
                    let j = note_index(s, user_id@, note_id@);
                    assert(is_key(s[j], user_id@, note_id@));
                    assert(j == i);
                }
                return Some(i);
            }
            i += 1;
        }
        None
    }

    /// Adds an empty note, or reports `Conflict` where the user already keeps
    /// a note under that id.
    pub fn create_note(&mut self, user_id: &str, note_id: &str, note: &NoteCreate) -> (r: Result<(), SyncError>)
        requires
            old(self).wf(),
        ensures
            final(self).wf(),
            has_note(old(self)@.notes, user_id@, note_id@) ==> {
                &&& r == Err::<(), SyncError>(SyncError::Conflict)
                &&& final(self)@ == old(self)@
            },
            !has_note(old(self)@.notes, user_id@, note_id@) ==> {
                &&& r == Ok::<(), SyncError>(())
                &&& final(self)@.notes == old(self)@.notes.push(
                    created_view(user_id@, note_id@, note.title@, note.created_at.value()),
                )
                &&& final(self)@.tombstones == old(self)@.tombstones
            },
    {
        let uid = user_id.to_owned();
        let nid = note_id.to_owned();
        match self.find(&uid, &nid) {
            Some(_) => Err(SyncError::Conflict),
            None => {
                let ghost before = self.notes@;
                let n = Note {
                    id: nid,
                    user_id: uid,
                    title: note.title.clone(),
                    content: String::new(),
                    tags: Vec::new(),
                    created_at: note.created_at,
                    updated_at: note.created_at,
                };
                proof {
                    assert(texts(n.tags@) =~= Seq::<Seq<char>>::empty());
                    assert(tag_set(n.tags@) =~= Set::<Seq<char>>::empty());
                }
                self.notes.push(n);
                proof {
                    assert(self.notes@ == before.push(n));
                    assert(note_views(self.notes@) =~= note_views(before).push(n@));
                }
                Ok(())
            },
        }
    }

    /// Writes the note in full: replaces the one that the user keeps under
    /// that id, or adds it. The tags become the set that `note` lists.
    pub fn import_note(&mut self, user_id: &str, note_id: &str, note: &NoteImport) -> (r: Result<(), SyncError>)
        requires
            old(self).wf(),
        ensures
            final(self).wf(),
            r == Ok::<(), SyncError>(()),
            final(self)@.tombstones == old(self)@.tombstones,
            final(self)@.notes == imported(old(self)@.notes, user_id@, note_id@, *note),
    {
        let uid = user_id.to_owned();
        let nid = note_id.to_owned();
        let found = self.find(&uid, &nid);
        let ghost before = self.notes@;
        let n = Note {
            id: nid,
            user_id: uid,
            title: note.title.clone(),
            content: note.content.clone(),
            tags: unique_tags(&note.tags),
            created_at: note.created_at,
            updated_at: note.updated_at,
        };
        match found {
            Some(i) => {
                self.notes.set(i, n);
                proof {
                    assert(note_views(self.notes@) =~= note_views(before).update(i as int, n@));
                }
            },
            None => {
                self.notes.push(n);
                proof {
                    assert(note_views(self.notes@) =~= note_views(before).push(n@));
                }
            },
        }
        Ok(())
    }

    /// The note that the user keeps under that id, or `NotFound`.
    pub fn get_note(&self, user_id: &str, note_id: &str) -> (r: Result<Note, SyncError>)
        requires
            self.wf(),
        ensures
            match r {
                Ok(n) => {
                    &&& has_note(self@.notes, user_id@, note_id@)
                    &&& n@ == self@.notes[note_index(self@.notes, user_id@, note_id@)]
                    &&& n.wf()
                },
                Err(e) => !has_note(self@.notes, user_id@, note_id@) && e == SyncError::NotFound,
            },
    {
        let uid = user_id.to_owned();
        let nid = note_id.to_owned();
        match self.find(&uid, &nid) {
            Some(i) => {
                let n = self.notes[i].duplicate();
                proof {
                    assert(self.notes@[i as int].wf());
                }
                Ok(n)
            },
            None => Err(SyncError::NotFound),
        }
    }

    /// Applies a partial update to the note that the user keeps under that id
    /// and returns the note as stored, or reports `NotFound`.
    pub fn update_note(&mut self, user_id: &str, note_id: &str, update: NoteUpdate) -> (r: Result<Note, SyncError>)
        requires
            old(self).wf(),
        ensures
            final(self).wf(),
            final(self)@.tombstones == old(self)@.tombstones,
            match r {
                Ok(n) => {
                    let i = note_index(old(self)@.notes, user_id@, note_id@);
                    let v = updated_view(old(self)@.notes[i], update);
                    &&& has_note(old(self)@.notes, user_id@, note_id@)
                    &&& n@ == v
                    &&& n.wf()
                    &&& final(self)@.notes == old(self)@.notes.update(i, v)
                },
                Err(e) => {
                    &&& !has_note(old(self)@.notes, user_id@, note_id@)
                    &&& e == SyncError::NotFound
                    &&& final(self)@ == old(self)@
                },
            },
    {
        let uid = user_id.to_owned();
        let nid = note_id.to_owned();
        match self.find(&uid, &nid) {
            None => Err(SyncError::NotFound),
            Some(i) => {
                let ghost before = self.notes@;
                let ghost u = update;
                let cur = &self.notes[i];
                proof {
                    assert(cur.wf());
                }
                let title = match update.title {
                    Some(t) => t,
                    None => cur.title.clone(),
                };
                let content = match update.content {
                    Some(c) => c,
                    None => cur.content.clone(),
                };
                let tags = match update.tags {
                    Some(ts) => unique_tags(&ts),
                    None => copy_strings(&cur.tags),
                };
                let n = Note {
                    id: cur.id.clone(),
                    user_id: cur.user_id.clone(),
                    title,
                    content,
                    tags,
                    created_at: cur.created_at,
                    updated_at: update.updated_at,
                };
                assert(n@ == updated_view(before[i as int]@, u));
                let out = n.duplicate();
                self.notes.set(i, n);
                proof {
                    assert(note_views(self.notes@) =~= note_views(before).update(i as int, n@));
                }
                Ok(out)
            },
        }
    }

    /// Removes the note that the user keeps under that id and logs its
    /// deletion at `deleted_at`; where there is none, changes nothing.
    pub fn delete_note(&mut self, user_id: &str, note_id: &str, deleted_at: Timestamp) -> (r: Result<(), SyncError>)
        requires
            old(self).wf(),
        ensures
            final(self).wf(),
            r == Ok::<(), SyncError>(()),
            has_note(old(self)@.notes, user_id@, note_id@) ==> {
                &&& final(self)@.notes == old(self)@.notes.remove(
                    note_index(old(self)@.notes, user_id@, note_id@),
                )
                &&& final(self)@.tombstones == old(self)@.tombstones.push(
                    TombstoneView { note_id: note_id@, user_id: user_id@, deleted_at: deleted_at.value() },
                )
            },
            !has_note(old(self)@.notes, user_id@, note_id@) ==> final(self)@ == old(self)@,
    {
        let uid = user_id.to_owned();
        let nid = note_id.to_owned();
        match self.find(&uid, &nid) {
            None => Ok(()),
            Some(i) => {
                let ghost before = self.notes@;
                let ghost logged = self.tombstones@;
                let t = Tombstone { note_id: nid, user_id: uid, deleted_at };
                self.tombstones.push(t);
                self.notes.remove(i);
                proof {
                    assert(note_views(self.notes@) =~= note_views(before).remove(i as int));
                    assert(tombstone_views(self.tombstones@) =~= tombstone_views(logged).push(t@));
                }
                Ok(())
            },
        }
    }

    /// The ids of `user_id`'s notes deleted after `since`, in log order.
    fn deleted_ids(&self, user_id: &String, since: Timestamp) -> (r: Vec<String>)
        ensures
            texts(r@) == deleted_since(self@.tombstones, user_id@, since.value()),
    {
        let ghost ts = self@.tombstones;
        let mut ids: Vec<String> = Vec::new();
        let mut j: usize = 0;
        assert(texts(ids@) =~= Seq::<Seq<char>>::empty());
        while j < self.tombstones.len()
            invariant
                ts == self@.tombstones,
                0 <= j <= self.tombstones@.len(),
                texts(ids@) == deleted_since(ts.take(j as int), user_id@, since.value()),
            decreases self.tombstones@.len() - j,
        {
            let t = &self.tombstones[j];
            proof {
                assert(ts.take(j + 1).drop_last() =~= ts.take(j as int));
                assert(ts.take(j + 1).last() == t@);
            }
            if t.user_id == *user_id && t.deleted_at.micros > since.micros {
                let ghost before = ids@;
                ids.push(t.note_id.clone());
                proof {
                    assert(texts(ids@) =~= texts(before).push(t.note_id@));
                }
            }
            j += 1;
        }
        assert(ts.take(ts.len() as int) =~= ts);
        ids
    }

    /// What `user_id` must pull to catch up from `since`: the notes changed
    /// after it, oldest change first, and the ids deleted after it.
    #[verifier::loop_isolation(false)]
    pub fn get_sync_notes(&self, user_id: &str, since: Timestamp) -> (r: (Vec<Note>, Vec<String>))
        requires
            self.wf(),
        ensures
            is_delta(self@.notes, user_id@, since.value(), note_views(r.0@)),
            forall|k: int| 0 <= k < r.0@.len() ==> #[trigger] r.0@[k].wf(),
            texts(r.1@) == deleted_since(self@.tombstones, user_id@, since.value()),
    {
        let uid = user_id.to_owned();
        let ghost s = self@.notes;
        let ghost owner = user_id@;
        let ghost t0 = since.value();
        let mut out: Vec<Note> = Vec::new();
        let mut i: usize = 0;
        assert(note_views(out@) =~= Seq::<NoteView>::empty());
        while i < self.notes.len()
            invariant
                self.wf(),
                s == self@.notes,
                owner == user_id@,
                uid@ == user_id@,
                t0 == since.value(),
                0 <= i <= self.notes@.len(),
                sorted_by_update(note_views(out@)),
                note_views(out@).no_duplicates(),
                forall|k: int| 0 <= k < out@.len() ==> #[trigger] out@[k].wf(),
                forall|m: NoteView|
                    #![trigger note_views(out@).contains(m)]
                    #![trigger s.take(i as int).contains(m)]
                    note_views(out@).contains(m) <==> (s.take(i as int).contains(m) && is_changed(m, owner, t0)),
            decreases self.notes@.len() - i,
        {
            let n = &self.notes[i];
            let ghost t1 = s.take(i + 1);
            let ghost t0s = s.take(i as int);
            proof {
                assert(s[i as int] == n@);
                assert forall|m: NoteView| t1.contains(m) <==> (t0s.contains(m) || m == n@) by {
                    if t1.contains(m) {
                        let k = choose|k: int| 0 <= k < t1.len() && t1[k] == m;
                        if k < i {
                            assert(t0s[k] == m);
                        }
                    }
                    if t0s.contains(m) {
                        let k = choose|k: int| 0 <= k < t0s.len() && t0s[k] == m;
                        assert(t1[k] == m);
                    }
                    assert(t1[i as int] == n@);
                }
            }
            if n.user_id == uid && n.updated_at.micros > since.micros {
                let ghost ov = note_views(out@);
                let ghost oo = out@;
                assert forall|m: NoteView| ov.contains(m) <==> (t0s.contains(m) && is_changed(m, owner, t0)) by {
                    assert(note_views(out@).contains(m) <==> (s.take(i as int).contains(m) && is_changed(m, owner, t0)));
                }
                let mut p: usize = 0;
                while p < out.len() && out[p].updated_at.micros <= n.updated_at.micros
                    invariant
                        0 <= p <= out@.len(),
                        ov == note_views(out@),
                        forall|k: int| 0 <= k < p ==> ov[k].updated_at <= n@.updated_at,
                    decreases out@.len() - p,
                {
                    p += 1;
                }
                proof {
                    if ov.contains(n@) {
                        assert(t0s.contains(n@));
                        let k = choose|k: int| 0 <= k < t0s.len() && t0s[k] == n@;
                        assert(t0s[k] == s[k]);
                        assert(keys_unique(s));
                        assert(!is_key(s[k], s[i as int].user_id, s[i as int].id));
                        assert(false);
                    }
                }
                let c = n.duplicate();
                proof {
                    assert(self.notes@[i as int].wf());
                }
                out.insert(p, c);
                proof {
                    let nv = note_views(out@);
                    assert(nv =~= ov.insert(p as int, n@));
                    lemma_insert_no_duplicates(ov, p as int, n@);
                    assert forall|m: NoteView| nv.contains(m) <==> (t1.contains(m) && is_changed(m, owner, t0)) by {
                        lemma_insert_contains(ov, p as int, n@, m);
                        assert(ov.contains(m) <==> (t0s.contains(m) && is_changed(m, owner, t0)));
                        assert(t1.contains(m) <==> (t0s.contains(m) || m == n@));
                    }
                    assert forall|a: int, b: int| 0 <= a <= b < nv.len() implies nv[a].updated_at <= nv[b].updated_at by {
                        if a < p && b > p {
                            assert(nv[b] == ov[b - 1]);
                        } else if a == p && b > p {
                            assert(nv[b] == ov[b - 1]);
                            assert(ov[p as int].updated_at <= ov[b - 1].updated_at);
                        } else if b > p {
                            assert(nv[a] == ov[a - 1]);
                            assert(nv[b] == ov[b - 1]);
                        }
                    }
                    assert forall|k: int| 0 <= k < out@.len() implies #[trigger] out@[k].wf() by {
                        if k > p {
                            assert(out@[k] == oo[k - 1]);
                        } else if k < p {
                            assert(out@[k] == oo[k]);
                        }
                    }
                }
            }
            assert forall|m: NoteView|
                note_views(out@).contains(m) <==> (t1.contains(m) && is_changed(m, owner, t0)) by {
                assert(t1.contains(m) <==> (t0s.contains(m) || m == n@));
                assert(is_changed(n@, owner, t0) == (n.user_id@ == uid@ && n.updated_at.micros > since.micros));
            }
            i += 1;
        }
        assert(s.take(s.len() as int) =~= s);
        let ids = self.deleted_ids(&uid, since);
        (out, ids)
    }
}

} // verus!
