use notes_sync_server::auth::AuthToken;
use notes_sync_server::error::SyncError;
use notes_sync_server::model::{unique_tags, NoteCreate, NoteImport, NoteUpdate, SyncRequest};
use notes_sync_server::service::SyncService;
use notes_sync_server::store::NoteStore;
use notes_sync_server::time::{default_since, Timestamp};

const SEC: i64 = 1_000_000;

fn at(secs: i64) -> Timestamp {
    Timestamp::from_micros(secs * SEC)
}

// 2023-01-01T00:00:00Z, 2024-01-01T00:00:00Z, 2024-01-01T12:00:00Z,
// 2024-01-02T00:00:00Z, 2024-01-03T00:00:00Z
const Y2023: i64 = 1_672_531_200;
const JAN1: i64 = 1_704_067_200;
const JAN1_NOON: i64 = 1_704_110_400;
const JAN2: i64 = 1_704_153_600;
const JAN3: i64 = 1_704_240_000;

fn service() -> SyncService {
    SyncService::new(NoteStore::new())
}

fn strings(v: &[&str]) -> Vec<String> {
    v.iter().map(|s| s.to_string()).collect()
}

fn sorted(mut v: Vec<String>) -> Vec<String> {
    v.sort();
    v
}

fn create(svc: &mut SyncService, id: &str, title: &str, t: i64) -> Result<(), SyncError> {
    svc.create_note("alice", id, NoteCreate { title: title.to_string(), created_at: at(t) })
}

fn sync_from(svc: &SyncService, since: i64) -> notes_sync_server::model::SyncResponse {
    let req = SyncRequest { last_sync_time: Some(at(since)), device_id: "phone".to_string() };
    svc.sync_notes_at("alice", req, at(JAN3 + 86_400)).unwrap()
}

#[test]
fn create_then_sync_lists_new_note() {
    let mut svc = service();
    create(&mut svc, "n1", "Groceries", JAN1).unwrap();
    let r = sync_from(&svc, Y2023);
    assert_eq!(r.notes.len(), 1);
    assert_eq!(r.notes[0].id, "n1");
    assert_eq!(r.notes[0].title, "Groceries");
    assert_eq!(r.notes[0].content, "");
    assert!(r.notes[0].tags.is_empty());
    assert_eq!(r.notes[0].created_at, at(JAN1));
    assert_eq!(r.notes[0].updated_at, at(JAN1));
    assert!(r.deleted_note_ids.is_empty());
}

#[test]
fn tag_update_then_get_keeps_title() {
    let mut svc = service();
    create(&mut svc, "n1", "Groceries", JAN1).unwrap();
    let upd = NoteUpdate { title: None, content: None, tags: Some(strings(&["home"])), updated_at: at(JAN2) };
    let n = svc.update_note("alice", "n1", upd).unwrap();
    assert_eq!(n.tags, strings(&["home"]));
    let g = svc.get_note("alice", "n1").unwrap();
    assert_eq!(g.tags, strings(&["home"]));
    assert_eq!(g.title, "Groceries");
    assert_eq!(g.updated_at, at(JAN2));
}

#[test]
fn delete_then_sync_reports_id() {
    let mut svc = service();
    create(&mut svc, "n1", "Groceries", JAN1).unwrap();
    svc.delete_note_at("alice", "n1", at(JAN3)).unwrap();
    let r = sync_from(&svc, JAN1_NOON);
    assert_eq!(r.deleted_note_ids, strings(&["n1"]));
    assert!(r.notes.iter().all(|n| n.id != "n1"));
    assert_eq!(svc.get_note("alice", "n1").unwrap_err(), SyncError::NotFound);
}

#[test]
fn sync_from_creation_time_excludes_note() {
    let mut svc = service();
    create(&mut svc, "n1", "a", JAN1).unwrap();
    assert_eq!(sync_from(&svc, JAN1 - 1).notes.len(), 1);
    assert!(sync_from(&svc, JAN1).notes.is_empty());
    assert!(sync_from(&svc, JAN2).notes.is_empty());
}

#[test]
fn deleted_note_before_cursor_not_reported() {
    let mut svc = service();
    create(&mut svc, "n1", "a", JAN1).unwrap();
    svc.delete_note_at("alice", "n1", at(JAN2)).unwrap();
    assert!(sync_from(&svc, JAN3).deleted_note_ids.is_empty());
    assert_eq!(sync_from(&svc, JAN2 - 1).deleted_note_ids, strings(&["n1"]));
}

#[test]
fn content_update_keeps_title() {
    let mut svc = service();
    create(&mut svc, "n1", "T", JAN1).unwrap();
    let upd = NoteUpdate { title: None, content: Some("x".to_string()), tags: None, updated_at: at(JAN2) };
    let n = svc.update_note("alice", "n1", upd).unwrap();
    assert_eq!(n.title, "T");
    assert_eq!(n.content, "x");
    assert_eq!(n.created_at, at(JAN1));
    assert_eq!(n.updated_at, at(JAN2));
}

#[test]
fn update_without_tags_keeps_tags() {
    let mut svc = service();
    let imp = NoteImport {
        title: "T".to_string(),
        content: "c".to_string(),
        tags: strings(&["a", "b"]),
        created_at: at(JAN1),
        updated_at: at(JAN1),
    };
    svc.import_note("alice", "n1", imp).unwrap();
    let upd = NoteUpdate { title: Some("U".to_string()), content: None, tags: None, updated_at: at(JAN2) };
    let n = svc.update_note("alice", "n1", upd).unwrap();
    assert_eq!(n.title, "U");
    assert_eq!(n.content, "c");
    assert_eq!(sorted(n.tags), strings(&["a", "b"]));
}

#[test]
fn update_missing_note_is_not_found() {
    let mut svc = service();
    let upd = NoteUpdate { title: None, content: None, tags: None, updated_at: at(JAN2) };
    assert_eq!(svc.update_note("alice", "n1", upd).unwrap_err(), SyncError::NotFound);
}

#[test]
fn create_twice_is_conflict() {
    let mut svc = service();
    create(&mut svc, "n1", "a", JAN1).unwrap();
    assert_eq!(create(&mut svc, "n1", "b", JAN2), Err(SyncError::Conflict));
    assert_eq!(svc.get_note("alice", "n1").unwrap().title, "a");
}

#[test]
fn same_id_for_two_users() {
    let mut svc = service();
    create(&mut svc, "n1", "mine", JAN1).unwrap();
    svc.create_note("bob", "n1", NoteCreate { title: "his".to_string(), created_at: at(JAN2) }).unwrap();
    assert_eq!(svc.get_note("alice", "n1").unwrap().title, "mine");
    assert_eq!(svc.get_note("bob", "n1").unwrap().title, "his");
    assert_eq!(sync_from(&svc, Y2023).notes.len(), 1);
}

#[test]
fn import_twice_same_as_once() {
    let payload = || NoteImport {
        title: "T".to_string(),
        content: "body".to_string(),
        tags: strings(&["x", "y", "x"]),
        created_at: at(JAN1),
        updated_at: at(JAN2),
    };
    let mut once = service();
    once.import_note("alice", "n1", payload()).unwrap();
    let mut twice = service();
    twice.import_note("alice", "n1", payload()).unwrap();
    twice.import_note("alice", "n1", payload()).unwrap();
    let a = sync_from(&once, Y2023);
    let b = sync_from(&twice, Y2023);
    assert_eq!(a.notes.len(), 1);
    assert_eq!(b.notes.len(), 1);
    assert_eq!(a.notes[0].title, b.notes[0].title);
    assert_eq!(a.notes[0].content, b.notes[0].content);
    assert_eq!(sorted(a.notes[0].tags.clone()), strings(&["x", "y"]));
    assert_eq!(sorted(b.notes[0].tags.clone()), strings(&["x", "y"]));
    assert_eq!(b.notes[0].updated_at, at(JAN2));
}

#[test]
fn import_overwrites_existing_note() {
    let mut svc = service();
    create(&mut svc, "n1", "old", JAN2).unwrap();
    let imp = NoteImport {
        title: "new".to_string(),
        content: "c".to_string(),
        tags: strings(&["t"]),
        created_at: at(JAN1),
        updated_at: at(JAN1),
    };
    svc.import_note("alice", "n1", imp).unwrap();
    let g = svc.get_note("alice", "n1").unwrap();
    assert_eq!(g.title, "new");
    assert_eq!(g.tags, strings(&["t"]));
    assert_eq!(g.updated_at, at(JAN1));
}

#[test]
fn changed_notes_ascending_by_update() {
    let mut svc = service();
    create(&mut svc, "a", "a", JAN3).unwrap();
    create(&mut svc, "b", "b", JAN1).unwrap();
    create(&mut svc, "c", "c", JAN2).unwrap();
    create(&mut svc, "d", "d", JAN1_NOON).unwrap();
    let r = sync_from(&svc, Y2023);
    let ids: Vec<&str> = r.notes.iter().map(|n| n.id.as_str()).collect();
    assert_eq!(ids, vec!["b", "d", "c", "a"]);
    for w in r.notes.windows(2) {
        assert!(w[0].updated_at.micros <= w[1].updated_at.micros);
    }
}

#[test]
fn delete_missing_note_writes_no_tombstone() {
    let mut svc = service();
    assert_eq!(svc.delete_note_at("alice", "ghost", at(JAN2)), Ok(()));
    assert!(sync_from(&svc, Y2023).deleted_note_ids.is_empty());
    create(&mut svc, "n1", "a", JAN1).unwrap();
    svc.delete_note_at("alice", "n1", at(JAN2)).unwrap();
    svc.delete_note_at("alice", "n1", at(JAN3)).unwrap();
    assert_eq!(sync_from(&svc, Y2023).deleted_note_ids, strings(&["n1"]));
}

#[test]
fn recreated_note_in_both_lists() {
    let mut svc = service();
    create(&mut svc, "n1", "a", JAN1).unwrap();
    svc.delete_note_at("alice", "n1", at(JAN2)).unwrap();
    create(&mut svc, "n1", "b", JAN3).unwrap();
    let r = sync_from(&svc, JAN1_NOON);
    assert_eq!(r.deleted_note_ids, strings(&["n1"]));
    assert_eq!(r.notes.len(), 1);
    assert_eq!(r.notes[0].title, "b");
}

#[test]
fn sync_without_cursor_uses_one_year_window() {
    let mut svc = service();
    let now = JAN3;
    create(&mut svc, "old", "old", now - 366 * 86_400).unwrap();
    create(&mut svc, "new", "new", now - 364 * 86_400).unwrap();
    let req = SyncRequest { last_sync_time: None, device_id: "d".to_string() };
    let r = svc.sync_notes_at("alice", req, at(now)).unwrap();
    assert_eq!(r.current_time, at(now));
    assert_eq!(r.notes.len(), 1);
    assert_eq!(r.notes[0].id, "new");
}

#[test]
fn default_since_values() {
    assert_eq!(default_since(at(JAN1)).micros, (JAN1 - 365 * 86_400) * SEC);
    assert_eq!(default_since(Timestamp::from_micros(i64::MIN + 5)).micros, i64::MIN);
}

#[test]
fn sync_cursor_is_current_time() {
    let mut svc = service();
    create(&mut svc, "n1", "a", JAN1).unwrap();
    let req = SyncRequest { last_sync_time: Some(at(Y2023)), device_id: "d".to_string() };
    let r = svc.sync_notes("alice", req).unwrap();
    assert!(r.current_time.micros > JAN1 * SEC);
    assert_eq!(r.notes.len(), 1);
}

#[test]
fn delete_uses_current_time() {
    let mut svc = service();
    create(&mut svc, "n1", "a", JAN1).unwrap();
    svc.delete_note("alice", "n1").unwrap();
    assert_eq!(sync_from(&svc, JAN3).deleted_note_ids, strings(&["n1"]));
}

#[test]
fn unique_tags_drops_repeats() {
    let t = unique_tags(&strings(&["a", "b", "a", "c", "b"]));
    assert_eq!(t, strings(&["a", "b", "c"]));
}

#[test]
fn error_messages() {
    assert_eq!(SyncError::NotFound.message(), "Note not found");
    assert_eq!(SyncError::Conflict.message(), "Note already exists");
    assert_eq!(SyncError::Unauthorized.message(), "Unauthorized");
    assert_eq!(SyncError::InvalidCredentials.message(), "Invalid credentials");
    assert_eq!(SyncError::DatabaseError.message(), "Database error");
}

#[test]
fn auth_token_text() {
    let t = AuthToken::new("abc.def".to_string());
    assert_eq!(t.token(), "abc.def");
}
