use sillok::cli::args::{AmendArgs, NoteArgs, ObjectiveAddArgs, ObjectiveCompleteArgs, RetractArgs};
use sillok::domain::archive::Archive;
use sillok::domain::event::{ChronicleEvent, EventKind, RecordKind, RecordStatus, WorkContext};
use sillok::domain::id::ChronicleId;
use sillok::domain::time::{DayKey, Timestamp};
use sillok::domain::view::{ChronicleView, DerivedRecord};
use sillok::error::SillokError;
use sillok::mutations::{amend, note, objective_add, objective_complete, retract};
use sillok::operation::OperationContext;
use sillok::sync::merge::merge_archives;
use sillok::sync::plan::{select_target, Keep, SyncMode};

const MAY_13_NINE: i64 = 1_778_662_800_000;
const MAY_14_NINE: i64 = 1_778_749_200_000;

fn context() -> WorkContext {
    WorkContext {
        cwd: Some("/tmp/sillok-law-test".to_string()),
        git_root: None,
        git_branch: None,
        git_head: None,
        git_remote: None,
    }
}

fn ctx_at(ms: i64) -> OperationContext {
    match OperationContext::new(
        "/tmp/sillok.db".to_string(),
        None,
        Some("UTC".to_string()),
        Timestamp::from_millis(ms),
        Some("tester".to_string()),
        context(),
        Vec::new(),
    ) {
        Ok(value) => value,
        Err(error) => panic!("context failed: {}", error.to_text()),
    }
}

fn ok<T>(r: Result<T, SillokError>) -> T {
    match r {
        Ok(value) => value,
        Err(error) => panic!("unexpected error: {}", error.to_text()),
    }
}

fn err<T>(r: Result<T, SillokError>) -> SillokError {
    match r {
        Ok(_) => panic!("unexpected success"),
        Err(error) => error,
    }
}

fn note_args(text: &str, parent: Option<String>) -> NoteArgs {
    NoteArgs {
        text: text.to_string(),
        parent,
        purpose: None,
        tags: vec!["Rust".to_string()],
        status: RecordStatus::Completed,
    }
}

fn fresh_archive() -> Archive {
    Archive::new(Timestamp::from_millis(MAY_13_NINE - 1000), "tester".to_string(), context())
}

#[test]
fn note_opens_the_day_once() {
    let ctx = ctx_at(MAY_13_NINE);
    let mut archive = fresh_archive();
    let first = ok(note(&ctx, &mut archive, note_args("first", None)));
    assert_eq!(archive.events.len(), 3);
    assert!(matches!(archive.events[1].kind, EventKind::DayOpened { .. }));
    assert_eq!(first.kind, RecordKind::Task);
    assert_eq!(first.text, "first");
    assert_eq!(first.tags, vec!["rust".to_string()]);
    assert_eq!(first.parent_id, Some(first.day_id));
    let second = ok(note(&ctx, &mut archive, note_args("second", None)));
    assert_eq!(archive.events.len(), 4);
    assert_eq!(second.day_id, first.day_id);
    let view = ok(ChronicleView::build(&archive));
    let day = match view.record(&first.day_id) {
        Some(record) => record,
        None => panic!("day missing"),
    };
    assert_eq!(day.day_key, Some(DayKey { date: "2026-05-13".to_string(), timezone: "UTC".to_string() }));
}

#[test]
fn note_under_a_parent_uses_the_parents_day() {
    let mut archive = fresh_archive();
    let parent = ok(note(&ctx_at(MAY_13_NINE), &mut archive, note_args("parent", None)));
    let child = ok(note(&ctx_at(MAY_14_NINE), &mut archive, note_args("child", Some(parent.record_id.to_string()))));
    assert_eq!(child.parent_id, Some(parent.record_id));
    assert_eq!(child.day_id, parent.day_id);
}

#[test]
fn failed_mutations_leave_the_archive_alone() {
    let ctx = ctx_at(MAY_13_NINE);
    let mut archive = fresh_archive();
    let before = archive.clone();
    let error = err(note(&ctx, &mut archive, note_args("   ", None)));
    assert_eq!(error.code(), "invalid_text");
    assert_eq!(archive, before);
    let missing = ChronicleId::new_v7();
    let error = err(note(&ctx, &mut archive, note_args("x", Some(missing.to_string()))));
    assert_eq!(error.code(), "record_not_found");
    assert_eq!(error.message, format!("record `{}` does not exist", missing.to_string()));
    assert_eq!(archive, before);
    let error = err(note(&ctx, &mut archive, note_args("x", Some("nope".to_string()))));
    assert_eq!(error.code(), "invalid_id");
}

#[test]
fn amend_changes_only_the_given_fields() {
    let ctx = ctx_at(MAY_13_NINE);
    let mut archive = fresh_archive();
    let task = ok(note(&ctx, &mut archive, NoteArgs {
        text: "draft".to_string(),
        parent: None,
        purpose: Some("why".to_string()),
        tags: vec!["a".to_string()],
        status: RecordStatus::Active,
    }));
    let later = ctx_at(MAY_13_NINE + 60_000);
    let amended = ok(amend(&later, &mut archive, AmendArgs {
        id: task.record_id.to_string(),
        text: None,
        status: Some(RecordStatus::Completed),
        purpose: None,
        tags: Vec::new(),
    }));
    assert_eq!(amended.status, RecordStatus::Completed);
    assert_eq!(amended.text, "draft");
    assert_eq!(amended.purpose, Some("why".to_string()));
    assert_eq!(amended.tags, vec!["a".to_string()]);
    assert_eq!(amended.created_at, task.created_at);
    assert_eq!(amended.updated_at, Timestamp::from_millis(MAY_13_NINE + 60_000));
    let error = err(amend(&later, &mut archive, AmendArgs {
        id: task.record_id.to_string(),
        text: None,
        status: None,
        purpose: None,
        tags: Vec::new(),
    }));
    assert_eq!(error.code(), "empty_amendment");
    assert_eq!(error.message, "amend requires at least one changed field");
}

#[test]
fn retract_hides_the_record_from_queries() {
    let ctx = ctx_at(MAY_13_NINE);
    let mut archive = fresh_archive();
    let task = ok(note(&ctx, &mut archive, note_args("temporary", None)));
    let gone = ok(retract(&ctx, &mut archive, RetractArgs { id: task.record_id.to_string(), reason: " mistake ".to_string() }));
    assert_eq!(gone.status, RecordStatus::Retracted);
    assert_eq!(gone.retraction_reason, Some("mistake".to_string()));
    let view = ok(ChronicleView::build(&archive));
    let visible: Vec<ChronicleId> = view.visible_records().into_iter().map(|r| r.record_id).collect();
    assert!(!visible.contains(&task.record_id));
    let found = view.query(Timestamp::from_millis(0), Timestamp::from_millis(MAY_14_NINE), None, None, None);
    assert!(found.iter().all(|r| r.record_id != task.record_id));
    let error = err(retract(&ctx, &mut archive, RetractArgs { id: task.record_id.to_string(), reason: "again".to_string() }));
    assert_eq!(error.code(), "record_retracted");
    let error = err(retract(&ctx, &mut archive, RetractArgs { id: task.day_id.to_string(), reason: "day".to_string() }));
    assert_eq!(error.code(), "invalid_operation");
}

#[test]
fn objectives_are_added_and_completed() {
    let ctx = ctx_at(MAY_13_NINE);
    let mut archive = fresh_archive();
    let objective = ok(objective_add(&ctx, &mut archive, ObjectiveAddArgs { text: "ship".to_string(), tags: Vec::new() }));
    assert_eq!(objective.kind, RecordKind::Objective);
    let done = ok(objective_complete(&ctx, &mut archive, ObjectiveCompleteArgs { id: objective.record_id.to_string(), note: Some("done".to_string()) }));
    assert_eq!(done.status, RecordStatus::Completed);
    assert_eq!(done.purpose, Some("done".to_string()));
    assert_eq!(done.text, "ship");
    assert_eq!(done.updated_at, ctx.recorded_at);
    let task = ok(note(&ctx, &mut archive, note_args("task", None)));
    let error = err(objective_complete(&ctx, &mut archive, ObjectiveCompleteArgs { id: task.record_id.to_string(), note: None }));
    assert_eq!(error.code(), "invalid_record_kind");
    assert_eq!(error.message, format!("record `{}` is not an objective", task.record_id.to_string()));
}

#[test]
fn history_is_ordered_by_recording_time() {
    let mut archive = fresh_archive();
    let task = ok(note(&ctx_at(MAY_13_NINE), &mut archive, note_args("task", None)));
    ok(amend(&ctx_at(MAY_13_NINE + 5), &mut archive, AmendArgs {
        id: task.record_id.to_string(),
        text: Some("renamed".to_string()),
        status: None,
        purpose: None,
        tags: Vec::new(),
    }));
    let view = ok(ChronicleView::build(&archive));
    let history = view.events_for_record(task.record_id);
    assert_eq!(history.len(), 2);
    assert!(matches!(history[0].kind, EventKind::TaskRecorded { .. }));
    assert!(matches!(history[1].kind, EventKind::TaskAmended { .. }));
    assert!(history[0].recorded_at <= history[1].recorded_at);
}

fn with_day(created_ms: i64, date: &str, text: &str) -> (Archive, ChronicleId) {
    let created = Timestamp::from_millis(created_ms);
    let mut archive = Archive::new(created, "t".to_string(), context());
    let day_id = ChronicleId::new_v7();
    archive.push(ChronicleEvent::new(created, created, "t".to_string(), context(), EventKind::DayOpened {
        day_id,
        day_key: DayKey { date: date.to_string(), timezone: "UTC".to_string() },
    }));
    let at = Timestamp::from_millis(created_ms + 10);
    archive.push(ChronicleEvent::new(at, at, "t".to_string(), context(), EventKind::TaskRecorded {
        task_id: ChronicleId::new_v7(),
        day_id,
        parent_id: day_id,
        text: text.to_string(),
        purpose: None,
        tags: Vec::new(),
        status: RecordStatus::Completed,
    }));
    (archive, day_id)
}

#[test]
fn merge_keeps_every_event_once_and_is_symmetric() {
    let (a, _) = with_day(1_000, "2026-05-13", "a");
    let (b, _) = with_day(2_000, "2026-05-14", "b");
    let ab = ok(merge_archives(Some(&a), Some(&b)));
    let ba = ok(merge_archives(Some(&b), Some(&a)));
    let merged = match ab.archive {
        Some(value) => value,
        None => panic!("missing archive"),
    };
    assert_eq!(Some(merged.clone()), ba.archive);
    assert_eq!(merged.events.len(), a.events.len() + b.events.len());
    for event in a.events.iter().chain(b.events.iter()) {
        assert_eq!(merged.events.iter().filter(|e| *e == event).count(), 1);
    }
    let again = ok(merge_archives(Some(&merged), Some(&a)));
    assert_eq!(again.archive.map(|x| x.events.len()), Some(merged.events.len()));
}

#[test]
fn merge_with_nothing_returns_the_present_side() {
    let (a, _) = with_day(1_000, "2026-05-13", "a");
    let only = ok(merge_archives(Some(&a), None));
    assert_eq!(only.archive, Some(a.clone()));
    assert!(!only.merged);
    let none = ok(merge_archives(None, None));
    assert!(none.archive.is_none());
    assert!(!none.merged);
}

#[test]
fn run_refuses_mismatched_archives_without_a_choice() {
    let (a, _) = with_day(1_000, "2026-05-13", "a");
    let (b, _) = with_day(2_000, "2026-05-14", "b");
    let error = err(select_target(SyncMode::Run, None, Some(&a), Some(&b)));
    assert_eq!(error.code(), "sync_mismatch_needs_choice");
    assert_eq!(
        error.message,
        format!(
            "local archive `{}` and remote archive `{}` differ; rerun `sync pull` to keep the remote or `sync push` to keep the local",
            a.archive_id.to_string(),
            b.archive_id.to_string()
        )
    );
    let keep_local = ok(select_target(SyncMode::Run, Some(Keep::Local), Some(&a), Some(&b)));
    assert!(keep_local.local_target.is_none());
    assert_eq!(keep_local.remote_target, Some(a.clone()));
    let pulled = ok(select_target(SyncMode::Pull, None, Some(&a), Some(&b)));
    assert_eq!(pulled.local_target, Some(b.clone()));
    assert!(pulled.remote_target.is_none());
    let error = err(select_target(SyncMode::Run, None, None, None));
    assert_eq!(error.code(), "archive_missing");
}

#[test]
fn tags_query_finds_tagged_records() {
    let ctx = ctx_at(MAY_13_NINE);
    let mut archive = fresh_archive();
    let tagged = ok(note(&ctx, &mut archive, note_args("tagged", None)));
    ok(note(&ctx, &mut archive, NoteArgs { text: "plain".to_string(), parent: None, purpose: None, tags: Vec::new(), status: RecordStatus::Open }));
    let view = ok(ChronicleView::build(&archive));
    let found: Vec<DerivedRecord> = view.query(Timestamp::from_millis(0), Timestamp::from_millis(MAY_14_NINE), None, Some("rust"), None);
    assert_eq!(found.len(), 1);
    assert_eq!(found[0].record_id, tagged.record_id);
    let open: Vec<DerivedRecord> = view.query(Timestamp::from_millis(0), Timestamp::from_millis(MAY_14_NINE), None, None, Some(RecordStatus::Open));
    assert_eq!(open.len(), 2);
    assert_eq!(open.iter().filter(|r| r.kind == RecordKind::Day).count(), 1);
    assert!(open.iter().any(|r| r.text == "plain"));
}

fn merged(r: Result<sillok::sync::merge::MergeOutcome, SillokError>) -> Archive {
    match ok(r).archive {
        Some(value) => value,
        None => panic!("missing archive"),
    }
}

#[test]
fn merging_a_merged_archive_with_itself_changes_nothing() {
    let (a, _) = with_day(1_000, "2026-05-13", "a");
    let (b, _) = with_day(2_000, "2026-05-14", "b");
    let ab = merged(merge_archives(Some(&a), Some(&b)));
    let again = ok(merge_archives(Some(&ab), Some(&ab)));
    assert!(!again.merged);
    assert_eq!(again.archive, Some(ab));
}

#[test]
fn three_replicas_converge_whichever_pair_merges_first() {
    let (a, _) = with_day(1_000, "2026-05-13", "a");
    let (b, _) = with_day(2_000, "2026-05-14", "b");
    let (c, _) = with_day(3_000, "2026-05-15", "c");
    let ab = merged(merge_archives(Some(&a), Some(&b)));
    let bc = merged(merge_archives(Some(&b), Some(&c)));
    let left = merged(merge_archives(Some(&ab), Some(&c)));
    let right = merged(merge_archives(Some(&a), Some(&bc)));
    assert_eq!(left, right);
    assert_eq!(left.archive_id, a.archive_id);
    assert_eq!(left.events.len(), a.events.len() + b.events.len() + c.events.len());
}

#[test]
fn backfilled_records_take_their_place_in_time() {
    let mut archive = fresh_archive();
    let later = ok(note(&ctx_at(MAY_13_NINE + 2_000), &mut archive, note_args("later", None)));
    let earlier = ok(note(&ctx_at(MAY_13_NINE + 1_000), &mut archive, note_args("earlier", None)));
    let view = ok(ChronicleView::build(&archive));
    let visible: Vec<DerivedRecord> = view.visible_records();
    let texts: Vec<&str> = visible.iter().filter(|r| r.kind == RecordKind::Task).map(|r| r.text.as_str()).collect();
    assert_eq!(texts, vec!["earlier", "later"]);
    assert_eq!(earlier.day_id, later.day_id);
}

#[test]
fn push_without_a_local_archive_is_refused() {
    let (remote, _) = with_day(1_000, "2026-05-13", "remote");
    let error = err(select_target(SyncMode::Push, None, None, Some(&remote)));
    assert_eq!(error.code(), "archive_missing");
    let (local, _) = with_day(2_000, "2026-05-14", "local");
    let target = ok(select_target(SyncMode::Push, None, Some(&local), Some(&remote)));
    assert_eq!(target.remote_target, Some(local));
    assert!(target.local_target.is_none());
}

#[test]
fn visible_records_equal_a_full_range_query() {
    let mut archive = fresh_archive();
    let first = ok(note(&ctx_at(MAY_13_NINE), &mut archive, note_args("first", None)));
    ok(note(&ctx_at(MAY_14_NINE), &mut archive, note_args("second", None)));
    ok(retract(&ctx_at(MAY_14_NINE), &mut archive, RetractArgs { id: first.record_id.to_string(), reason: "mistake".to_string() }));
    let view = ok(ChronicleView::build(&archive));
    let all = view.query(Timestamp::from_millis(i64::MIN), Timestamp::from_millis(i64::MAX), None, None, None);
    assert_eq!(view.visible_records(), all);
    assert!(all.iter().all(|r| r.record_id != first.record_id));
}

#[test]
fn fresh_record_ids_name_no_record() {
    let mut archive = fresh_archive();
    let task = ok(note(&ctx_at(MAY_13_NINE), &mut archive, note_args("task", None)));
    let view = ok(ChronicleView::build(&archive));
    let id = sillok::mutation_helpers::fresh_record_id(&view, Some(task.record_id));
    assert!(view.record(&id).is_none());
    assert_ne!(id, task.record_id);
    assert_ne!(id, task.day_id);
}

#[test]
fn invalid_texts_are_refused_before_any_change() {
    let ctx = ctx_at(MAY_13_NINE);
    let mut archive = fresh_archive();
    let task = ok(note(&ctx, &mut archive, note_args("task", None)));
    let before = archive.events.len();
    let long = "x".repeat(5000);
    let error = err(retract(&ctx, &mut archive, RetractArgs { id: task.record_id.to_string(), reason: "   ".to_string() }));
    assert_eq!(error.code(), "invalid_reason");
    let error = err(amend(&ctx, &mut archive, AmendArgs { id: task.record_id.to_string(), text: Some(long.clone()), status: None, purpose: None, tags: Vec::new() }));
    assert_eq!(error.code(), "invalid_text");
    let error = err(amend(&ctx, &mut archive, AmendArgs { id: task.record_id.to_string(), text: None, status: None, purpose: Some(long.clone()), tags: Vec::new() }));
    assert_eq!(error.code(), "invalid_purpose");
    let error = err(amend(&ctx, &mut archive, AmendArgs { id: ChronicleId::new_v7().to_string(), text: Some("new".to_string()), status: None, purpose: None, tags: Vec::new() }));
    assert_eq!(error.code(), "record_not_found");
    assert_eq!(archive.events.len(), before);
    let error = err(sillok::mutation_helpers::parse_optional_id(Some("not-a-uuid".to_string())));
    assert_eq!(error.code(), "invalid_id");
}
