use vstd::prelude::*;

use crate::error::SyncError;
use crate::model::{texts, Note, NoteCreate, NoteImport, NoteUpdate, SyncRequest, SyncResponse, TombstoneView};
use crate::store::{
    created_view, deleted_since, has_note, imported, is_delta, note_index, note_views, updated_view,
    NoteStore, StoreView,
};
use crate::time::{current_time, default_since, window_start, Timestamp};

verus! {

/// The cursor a sync starts from: the one the device sent, or one default
/// window before `now`.
pub open spec fn sync_start(request: SyncRequest, now: int) -> int {
    match request.last_sync_time {
        Some(t) => t.value(),
        None => window_start(now),
    }
}

/// `response` is the delta of `store` for `owner` under `request`, with the
/// cursor that it carries as the time of the read.
pub open spec fn is_sync_response(store: StoreView, owner: Seq<char>, request: SyncRequest, response: SyncResponse) -> bool {
    let since = sync_start(request, response.current_time.value());
    &&& is_delta(store.notes, owner, since, note_views(response.notes@))
    &&& texts(response.deleted_note_ids@) == deleted_since(store.tombstones, owner, since)
}

/// Creation, import, reads, updates, deletion and pulls of notes, over one
/// store.
pub struct SyncService {
    db: NoteStore,
}

impl View for SyncService {
    type V = StoreView;

    closed spec fn view(&self) -> StoreView {
        self.db@
    }
}

impl SyncService {
    pub closed spec fn wf(&self) -> bool {
        self.db.wf()
    }

    pub fn new(db: NoteStore) -> (r: SyncService)
        requires
            db.wf(),
        ensures
            r.wf(),
            r@ == db@,
    {
        SyncService { db }
    }

    /// See `NoteStore::create_note`.
    pub fn create_note(&mut self, user_id: &str, note_id: &str, note: NoteCreate) -> (r: Result<(), SyncError>)
        requires
            old(self).wf(),
        ensures
            final(self).wf(),
            has_note(old(self)@.notes, user_id@, note_id@) ==> {
                &&& r == Err::<(), SyncError>(SyncError::Conflict)
                &&& final(self)@ == old(self)@
            },
            !has_note(old(self)@.notes, user_id@, note_id@) ==> {
                &&& r == Ok::<(), SyncError>(())
                &&& final(self)@.notes == old(self)@.notes.push(
                    created_view(user_id@, note_id@, note.title@, note.created_at.value()),
                )
                &&& final(self)@.tombstones == old(self)@.tombstones
            },
    {
        self.db.create_note(user_id, note_id, &note)
    }

    /// See `NoteStore::import_note`.
    pub fn import_note(&mut self, user_id: &str, note_id: &str, note: NoteImport) -> (r: Result<(), SyncError>)
        requires
            old(self).wf(),
        ensures
            final(self).wf(),
            r == Ok::<(), SyncError>(()),
            final(self)@.tombstones == old(self)@.tombstones,
            final(self)@.notes == imported(old(self)@.notes, user_id@, note_id@, note),
    {
        self.db.import_note(user_id, note_id, &note)
    }

    /// See `NoteStore::get_note`.
    pub fn get_note(&self, user_id: &str, note_id: &str) -> (r: Result<Note, SyncError>)
        requires
            self.wf(),
        ensures
            match r {
                Ok(n) => {
                    &&& has_note(self@.notes, user_id@, note_id@)
                    &&& n@ == self@.notes[note_index(self@.notes, user_id@, note_id@)]
                    &&& n.wf()
                },
                Err(e) => !has_note(self@.notes, user_id@, note_id@) && e == SyncError::NotFound,
            },
    {
        self.db.get_note(user_id, note_id)
    }

    /// See `NoteStore::update_note`.
    pub fn update_note(&mut self, user_id: &str, note_id: &str, update: NoteUpdate) -> (r: Result<Note, SyncError>)
        requires
            old(self).wf(),
        ensures
            final(self).wf(),
            final(self)@.tombstones == old(self)@.tombstones,
            match r {
                Ok(n) => {
                    let i = note_index(old(self)@.notes, user_id@, note_id@);
                    let v = updated_view(old(self)@.notes[i], update);
                    &&& has_note(old(self)@.notes, user_id@, note_id@)
                    &&& n@ == v
                    &&& n.wf()
                    &&& final(self)@.notes == old(self)@.notes.update(i, v)
                },
                Err(e) => {
                    &&& !has_note(old(self)@.notes, user_id@, note_id@)
                    &&& e == SyncError::NotFound
                    &&& final(self)@ == old(self)@
                },
            },
    {
        self.db.update_note(user_id, note_id, update)
    }

    /// Deletes the note as of `deleted_at`; see `NoteStore::delete_note`.
    pub fn delete_note_at(&mut self, user_id: &str, note_id: &str, deleted_at: Timestamp) -> (r: Result<(), SyncError>)
        requires
            old(self).wf(),
        ensures
            final(self).wf(),
            r == Ok::<(), SyncError>(()),
            has_note(old(self)@.notes, user_id@, note_id@) ==> {
                &&& final(self)@.notes == old(self)@.notes.remove(
                    note_index(old(self)@.notes, user_id@, note_id@),
                )
                &&& final(self)@.tombstones == old(self)@.tombstones.push(
                    TombstoneView { note_id: note_id@, user_id: user_id@, deleted_at: deleted_at.value() },
                )
            },
            !has_note(old(self)@.notes, user_id@, note_id@) ==> final(self)@ == old(self)@,
    {
        self.db.delete_note(user_id, note_id, deleted_at)
    }

    /// Deletes the note as of the current time.
    pub fn delete_note(&mut self, user_id: &str, note_id: &str) -> (r: Result<(), SyncError>)
        requires
            old(self).wf(),
        ensures
            final(self).wf(),
            r == Ok::<(), SyncError>(()),
            has_note(old(self)@.notes, user_id@, note_id@) ==> {
                &&& final(self)@.notes == old(self)@.notes.remove(
                    note_index(old(self)@.notes, user_id@, note_id@),
                )
                &&& final(self)@.tombstones == old(self)@.tombstones.push(
                    TombstoneView {
                        note_id: note_id@,
                        user_id: user_id@,
                        deleted_at: final(self)@.tombstones.last().deleted_at,
                    },
                )
            },
            !has_note(old(self)@.notes, user_id@, note_id@) ==> final(self)@ == old(self)@,
    {
        let now = current_time();
        self.delete_note_at(user_id, note_id, now)
    }

    /// The delta for `user_id` under `request`, read at `now`.
    pub fn sync_notes_at(&self, user_id: &str, request: SyncRequest, now: Timestamp) -> (r: Result<SyncResponse, SyncError>)
        requires
            self.wf(),
        ensures
            match r {
                Ok(response) => {
                    &&& response.current_time == now
                    &&& is_sync_response(self@, user_id@, request, response)
                    &&& forall|k: int| 0 <= k < response.notes@.len() ==> #[trigger] response.notes@[k].wf()
                },
                Err(_) => false,
            },
    {
        let since = match request.last_sync_time {
            Some(t) => t,
            None => default_since(now),
        };
        let (notes, deleted_note_ids) = self.db.get_sync_notes(user_id, since);
        Ok(SyncResponse { notes, deleted_note_ids, current_time: now })
    }

    /// The delta for `user_id` under `request`, read at the current time,
    /// which becomes the returned cursor.
    pub fn sync_notes(&self, user_id: &str, sync_request: SyncRequest) -> (r: Result<SyncResponse, SyncError>)
        requires
            self.wf(),
        ensures
            match r {
                Ok(response) => is_sync_response(self@, user_id@, sync_request, response),
                Err(_) => false,
            },
    {
        let now = current_time();
        self.sync_notes_at(user_id, sync_request, now)
    }
}

} // verus!
