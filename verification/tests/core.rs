use sillok::archive_codec::{decode_archive, encode_archive, encode_sync_archive, LEGACY_ZSTD_LEVEL};
use sillok::cli::args::Command;
use sillok::cli::human::{doctor_missing, migrate, record_action, records, store_init, store_truncate};
use sillok::cli::output::should_compact_to_ids;
use sillok::domain::event::{RecordKind, RecordStatus, WorkContext};
use sillok::domain::view::DerivedRecord;
use sillok::domain::id::ChronicleId;
use sillok::domain::text::{EntryText, TagText, TextError};
use sillok::domain::time::{Timestamp, ZoneChoice};
use sillok::migration::{check_migration_source, migration_step, MigrationStep};
use sillok::operation::{clean_entry, clean_purpose, clean_reason, clean_tags};
use sillok::queries::{ensure_range, export_range, normalize_optional_tag, query_title};
use sillok::storage::handle::{is_legacy_store_path, StoreHandle};
use sillok::storage::sql::convert::{kind_label, parse_kind, parse_status, status_label};
use sillok::storage::sql::store::placeholders;
use sillok::sync::config::{sidecar_path, validate_artifact_path, SyncConfig};
use sillok::sync::git::git_failure_message;
use sillok::sync::plan::{parse_answer, Answer, Keep, SyncMode};
use sillok::sync::service::reject_legacy_sync;
use sillok::text::{ascii_lowercase, text_less, trim};

#[test]
fn trims_unicode_whitespace() {
    assert_eq!(trim("  \t hello world \u{3000}\n"), "hello world");
    assert_eq!(trim("   "), "");
}

#[test]
fn lowercases_ascii_letters_only() {
    assert_eq!(ascii_lowercase("LoCaL Ä"), "local Ä");
}

#[test]
fn orders_texts_by_character_code() {
    assert!(text_less("abc", "abd"));
    assert!(text_less("ab", "abc"));
    assert!(!text_less("abc", "abc"));
    assert!(!text_less("b", "abc"));
}

#[test]
fn id_text_roundtrips() {
    let raw = "018f3f6e-7c1a-7b2c-8d3e-4f5a6b7c8d9e";
    let id = match ChronicleId::parse(raw) {
        Ok(value) => value,
        Err(error) => panic!("parse failed: {}", error.to_text()),
    };
    assert_eq!(id.to_string(), raw);
    let bytes = id.to_vec();
    let back = match ChronicleId::from_slice(&bytes) {
        Ok(value) => value,
        Err(error) => panic!("from_slice failed: {}", error.to_text()),
    };
    assert_eq!(back, id);
}

#[test]
fn rejects_short_id_bytes() {
    match ChronicleId::from_slice(&[1, 2, 3]) {
        Ok(_) => panic!("accepted three bytes"),
        Err(error) => {
            assert_eq!(error.code(), "invalid_id");
            assert_eq!(error.message, "expected 16 UUID bytes, got 3");
        }
    }
}

#[test]
fn rejects_malformed_id_text() {
    match ChronicleId::parse("not-a-uuid") {
        Ok(_) => panic!("accepted garbage"),
        Err(error) => {
            assert_eq!(error.code(), "invalid_id");
            assert!(error.message.starts_with("invalid UUID `not-a-uuid`: "));
        }
    }
}

#[test]
fn formats_timestamps_as_rfc3339() {
    assert_eq!(Timestamp::from_millis(0).to_rfc3339(), "1970-01-01T00:00:00+00:00");
    assert_eq!(Timestamp::from_millis(1_778_662_800_000).to_rfc3339(), "2026-05-13T09:00:00+00:00");
}

#[test]
fn cleans_entry_text() {
    match clean_entry("  wrote tests \n".to_string()) {
        Ok(value) => assert_eq!(value, "wrote tests"),
        Err(error) => panic!("{}", error.to_text()),
    }
    match clean_entry("   ".to_string()) {
        Ok(_) => panic!("accepted blank text"),
        Err(error) => {
            assert_eq!(error.code(), "invalid_text");
            assert_eq!(error.message, "invalid entry text: NotEmptyViolated");
        }
    }
    match clean_entry("x".repeat(4097)) {
        Ok(_) => panic!("accepted long text"),
        Err(error) => {
            assert_eq!(error.code(), "invalid_text");
            assert_eq!(error.message, "invalid entry text: LenCharMaxViolated");
        }
    }
    assert!(clean_entry("é".repeat(4096)).is_ok());
}

#[test]
fn cleans_purpose_and_reason() {
    match clean_purpose(None) {
        Ok(value) => assert_eq!(value, None),
        Err(error) => panic!("{}", error.to_text()),
    }
    match clean_purpose(Some(" why ".to_string())) {
        Ok(value) => assert_eq!(value, Some("why".to_string())),
        Err(error) => panic!("{}", error.to_text()),
    }
    match clean_purpose(Some("".to_string())) {
        Ok(_) => panic!("accepted empty purpose"),
        Err(error) => {
            assert_eq!(error.code(), "invalid_purpose");
            assert_eq!(error.message, "invalid purpose text: NotEmptyViolated");
        }
    }
    match clean_reason("y".repeat(2049)) {
        Ok(_) => panic!("accepted long reason"),
        Err(error) => {
            assert_eq!(error.code(), "invalid_reason");
            assert_eq!(error.message, "invalid reason: LenCharMaxViolated");
        }
    }
}

#[test]
fn cleans_tags_into_a_sorted_set() {
    let raw = vec![" Rust ".to_string(), "sync".to_string(), "RUST".to_string(), "api".to_string()];
    match clean_tags(raw) {
        Ok(tags) => assert_eq!(tags, vec!["api".to_string(), "rust".to_string(), "sync".to_string()]),
        Err(error) => panic!("{}", error.to_text()),
    }
    match clean_tags(vec!["ok".to_string(), " ".to_string(), "x".repeat(97)]) {
        Ok(_) => panic!("accepted a blank tag"),
        Err(error) => {
            assert_eq!(error.code(), "invalid_tag");
            assert_eq!(error.message, "invalid tag: NotEmptyViolated");
        }
    }
    match clean_tags(vec!["x".repeat(97)]) {
        Ok(_) => panic!("accepted a long tag"),
        Err(error) => assert_eq!(error.message, "invalid tag: LenCharMaxViolated"),
    }
}

#[test]
fn text_newtypes_validate() {
    match EntryText::try_new("  task ".to_string()) {
        Ok(value) => assert_eq!(value.into_inner(), "task"),
        Err(_) => panic!("rejected valid text"),
    }
    assert_eq!(EntryText::try_new("".to_string()).err(), Some(TextError::NotEmptyViolated));
    match TagText::try_new(" MiXeD ".to_string()) {
        Ok(value) => assert_eq!(value.into_inner(), "mixed"),
        Err(_) => panic!("rejected valid tag"),
    }
    assert_eq!(TextError::LenCharMaxViolated.name(), "LenCharMaxViolated");
}

#[test]
fn validates_artifact_paths() {
    assert!(validate_artifact_path("sillok.slk.zst").is_ok());
    assert!(validate_artifact_path("data/./archive.zst").is_ok());
    assert!(validate_artifact_path("a//b").is_ok());
    match validate_artifact_path("/etc/passwd") {
        Ok(()) => panic!("accepted absolute path"),
        Err(error) => {
            assert_eq!(error.code(), "sync_config_error");
            assert_eq!(error.message, "artifact path must be a non-empty relative path");
        }
    }
    match validate_artifact_path("  ") {
        Ok(()) => panic!("accepted blank path"),
        Err(error) => assert_eq!(error.message, "artifact path must be a non-empty relative path"),
    }
    match validate_artifact_path("data/../../escape") {
        Ok(()) => panic!("accepted parent segment"),
        Err(error) => {
            assert_eq!(error.code(), "sync_config_error");
            assert_eq!(error.message, "artifact path `data/../../escape` must stay inside the Git worktree");
        }
    }
    assert!(validate_artifact_path("./archive").is_err());
    assert!(validate_artifact_path(".").is_err());
    assert!(validate_artifact_path("..").is_err());
    assert!(validate_artifact_path("..hidden").is_ok());
}

#[test]
fn validates_sync_config() {
    match SyncConfig::new("git@example.com:me/log.git".to_string(), "main".to_string(), "sillok.slk.zst".to_string()) {
        Ok(config) => {
            assert_eq!(config.schema_version, 1);
            assert!(config.validate().is_ok());
        }
        Err(error) => panic!("{}", error.to_text()),
    }
    match SyncConfig::new(" ".to_string(), "main".to_string(), "a".to_string()) {
        Ok(_) => panic!("accepted empty url"),
        Err(error) => assert_eq!(error.message, "remote URL is empty"),
    }
    match SyncConfig::new("u".to_string(), "".to_string(), "a".to_string()) {
        Ok(_) => panic!("accepted empty branch"),
        Err(error) => assert_eq!(error.message, "remote branch is empty"),
    }
    let config = SyncConfig { schema_version: 7, url: "u".to_string(), branch: "b".to_string(), path: "p".to_string() };
    match config.validate() {
        Ok(()) => panic!("accepted schema 7"),
        Err(error) => assert_eq!(error.message, "sync config schema 7 is not supported"),
    }
    assert_eq!(sidecar_path("/data/sillok.db"), "/data/sillok.db.sync.json");
}

#[test]
fn detects_legacy_store_paths() {
    assert!(is_legacy_store_path("/home/me/.local/share/sillok/sillok.slk.zst"));
    assert!(is_legacy_store_path("archive.slk.zst/"));
    assert!(is_legacy_store_path("dir/archive.slk.zst/."));
    assert!(!is_legacy_store_path("/data/sillok.db"));
    assert!(!is_legacy_store_path("archive.slk.zst/.."));
    assert!(!is_legacy_store_path("/"));
    assert!(!is_legacy_store_path(""));
    let handle = StoreHandle::new("old.slk.zst".to_string());
    assert!(handle.is_legacy_path());
    match handle.require_sql_mutation() {
        Ok(_) => panic!("legacy store accepted for mutation"),
        Err(error) => {
            assert_eq!(error.code(), "migration_required");
            assert_eq!(error.message, "`old.slk.zst` is a legacy archive; run `sillok migrate --store old.slk.zst` first");
        }
    }
    let sql = StoreHandle::new("new.db".to_string());
    match sql.require_sql_mutation() {
        Ok(store) => assert_eq!(store.path(), "new.db"),
        Err(error) => panic!("{}", error.to_text()),
    }
    match reject_legacy_sync("x.slk.zst") {
        Ok(()) => panic!("sync allowed on legacy store"),
        Err(error) => assert_eq!(error.message, "`sync` requires a v2 SQLite/Turso store"),
    }
}

#[test]
fn labels_roundtrip_through_sql_text() {
    assert_eq!(kind_label(RecordKind::Objective), "objective");
    assert_eq!(status_label(RecordStatus::Blocked), "blocked");
    match parse_kind("task") {
        Ok(kind) => assert_eq!(kind, RecordKind::Task),
        Err(error) => panic!("{}", error.to_text()),
    }
    match parse_status("retracted") {
        Ok(status) => assert_eq!(status, RecordStatus::Retracted),
        Err(error) => panic!("{}", error.to_text()),
    }
    match parse_kind("epic") {
        Ok(_) => panic!("accepted unknown kind"),
        Err(error) => {
            assert_eq!(error.code(), "invalid_datashape");
            assert_eq!(error.message, "unknown record kind `epic`");
        }
    }
    match parse_status("done") {
        Ok(_) => panic!("accepted unknown status"),
        Err(error) => assert_eq!(error.message, "unknown record status `done`"),
    }
}

#[test]
fn renders_sql_placeholders() {
    assert_eq!(placeholders(0), "");
    assert_eq!(placeholders(1), "?1");
    assert_eq!(placeholders(3), "?1, ?2, ?3");
}

#[test]
fn query_helpers() {
    assert!(ensure_range(Timestamp::from_millis(5), Timestamp::from_millis(5)).is_ok());
    match ensure_range(Timestamp::from_millis(1000), Timestamp::from_millis(0)) {
        Ok(()) => panic!("accepted inverted range"),
        Err(error) => {
            assert_eq!(error.code(), "invalid_range");
            assert_eq!(error.message, "from `1970-01-01T00:00:01+00:00` is after to `1970-01-01T00:00:00+00:00`");
        }
    }
    assert_eq!(normalize_optional_tag(Some("  RUST ".to_string())), Some("rust".to_string()));
    assert_eq!(normalize_optional_tag(Some("   ".to_string())), None);
    assert_eq!(normalize_optional_tag(None), None);
    assert_eq!(query_title(Timestamp::from_millis(0), Timestamp::from_millis(1000)), "Query 1970-01-01T00:00:00+00:00 to 1970-01-01T00:00:01+00:00");
}

#[test]
fn sync_codec_roundtrips_at_level_22() {
    let payload: Vec<u8> = (0..2048u32).map(|i| (i % 251) as u8).collect();
    let frame = match encode_sync_archive(&payload) {
        Ok(value) => value,
        Err(error) => panic!("{}", error.to_text()),
    };
    assert_ne!(frame, payload);
    match decode_archive(&frame) {
        Ok(value) => assert_eq!(value, payload),
        Err(error) => panic!("{}", error.to_text()),
    }
    let legacy = match encode_archive(&payload, LEGACY_ZSTD_LEVEL) {
        Ok(value) => value,
        Err(error) => panic!("{}", error.to_text()),
    };
    match decode_archive(&legacy) {
        Ok(value) => assert_eq!(value, payload),
        Err(error) => panic!("{}", error.to_text()),
    }
    match decode_archive(b"not a zstd frame") {
        Ok(_) => panic!("decoded garbage"),
        Err(error) => assert_eq!(error.code(), "io_error"),
    }
}

#[test]
fn sync_choices() {
    assert_eq!(SyncMode::Pull.action(), "pull");
    assert_eq!(SyncMode::Run.action(), "run");
    assert_eq!(parse_answer("  L\n"), Some(Answer::Keep(Keep::Local)));
    assert_eq!(parse_answer("Remote"), Some(Answer::Keep(Keep::Remote)));
    assert_eq!(parse_answer("abort"), Some(Answer::Abort));
    assert_eq!(parse_answer("maybe"), None);
}

#[test]
fn command_names_and_compact_output() {
    assert_eq!(Command::Doctor.name(), "doctor");
    assert_eq!(Command::Init.name(), "init");
    assert!(should_compact_to_ids("note", true));
    assert!(!should_compact_to_ids("note", false));
    assert!(!should_compact_to_ids("query", true));
    assert_eq!(git_failure_message("git push", "", "rejected"), "git push failed: stdout= stderr=rejected");
}

#[test]
fn human_texts() {
    let id = match ChronicleId::parse("018f3f6e-7c1a-7b2c-8d3e-4f5a6b7c8d9e") {
        Ok(value) => value,
        Err(error) => panic!("{}", error.to_text()),
    };
    assert_eq!(
        store_init(id, Timestamp::from_millis(0), true, "/tmp/s.db"),
        "Created archive\nid: 018f3f6e-7c1a-7b2c-8d3e-4f5a6b7c8d9e\ncreated: 1970-01-01T00:00:00+00:00\nstore: /tmp/s.db"
    );
    assert_eq!(
        store_truncate(id, Timestamp::from_millis(0), None, "s.db"),
        "Truncated archive\narchive: 018f3f6e-7c1a-7b2c-8d3e-4f5a6b7c8d9e\ncreated: 1970-01-01T00:00:00+00:00\nbackup: none\nstore: s.db"
    );
    assert_eq!(
        doctor_missing("s.db", Timestamp::from_millis(0)),
        "Archive missing; no corruption found\nchecked: 1970-01-01T00:00:00+00:00\nstore: s.db"
    );
    assert_eq!(
        migrate("a.slk.zst", "sillok.db", Some("a.bak"), 3, 1, true),
        "Migration dry run\nsource: a.slk.zst\ntarget: sillok.db\nbackup: a.bak\nevents: 3\nrecords: 1"
    );
    assert_eq!(records("Query", &[]), "Query - 0 records\nNo records.");
}

#[test]
fn human_record_action_lists_details() {
    let id = match ChronicleId::parse("018f3f6e-7c1a-7b2c-8d3e-4f5a6b7c8d9e") {
        Ok(value) => value,
        Err(error) => panic!("{}", error.to_text()),
    };
    let record = DerivedRecord {
        record_id: id,
        kind: RecordKind::Task,
        day_id: id,
        parent_id: None,
        text: "wrote tests".to_string(),
        purpose: Some("coverage".to_string()),
        tags: vec!["a".to_string(), "b".to_string()],
        status: RecordStatus::Completed,
        created_at: Timestamp::from_millis(0),
        updated_at: Timestamp::from_millis(0),
        context: WorkContext { cwd: None, git_root: None, git_branch: None, git_head: None, git_remote: None },
        retraction_reason: None,
        day_key: None,
    };
    assert_eq!(
        record_action("Recorded task", &record),
        "Recorded task\ncompleted task: wrote tests\nid: 018f3f6e-7c1a-7b2c-8d3e-4f5a6b7c8d9e\ncreated: 1970-01-01T00:00:00+00:00\nupdated: 1970-01-01T00:00:00+00:00\nday: 018f3f6e-7c1a-7b2c-8d3e-4f5a6b7c8d9e\nnote: coverage\ntags: a, b"
    );
    assert_eq!(
        records("Query", &[record]),
        "Query - 1 record\n- [completed task] wrote tests (1970-01-01T00:00:00+00:00)\n  id: 018f3f6e-7c1a-7b2c-8d3e-4f5a6b7c8d9e\n  note: coverage\n  tags: a, b"
    );
}

#[test]
fn migration_source_must_be_a_legacy_archive() {
    assert!(check_migration_source("/data/sillok.slk.zst").is_ok());
    let error = check_migration_source("/data/sillok.db").unwrap_err();
    assert_eq!(error.code, "invalid_migration_source");
    assert_eq!(error.message, "migration source `/data/sillok.db` is not a legacy .slk.zst archive");
}

#[test]
fn migration_step_follows_the_flags() {
    assert_eq!(migration_step(true, false, "t.db", true).unwrap(), MigrationStep::Report);
    assert_eq!(migration_step(false, true, "t.db", false).unwrap(), MigrationStep::Import);
    let refused = migration_step(false, false, "t.db", false).unwrap_err();
    assert_eq!(refused.code, "confirmation_required");
    let exists = migration_step(false, true, "t.db", true).unwrap_err();
    assert_eq!(exists.code, "target_exists");
    assert_eq!(exists.message, "target store `t.db` already exists");
}

#[test]
fn export_range_needs_both_bounds_in_order() {
    let zone = ZoneChoice::parse(Some("UTC")).unwrap();
    assert!(export_range(&zone, None, None).unwrap().is_none());
    let one = export_range(&zone, Some("2024-01-01T00:00:00Z"), None).unwrap_err();
    assert_eq!(one.code, "invalid_range");
    assert_eq!(one.message, "export json requires both --from and --to or neither");
    let (from, to) = export_range(&zone, Some("2024-01-01T00:00:00Z"), Some("2024-01-02T00:00:00Z"))
        .unwrap()
        .unwrap();
    assert_eq!(from.as_millis(), 1_704_067_200_000);
    assert_eq!(to.as_millis(), 1_704_153_600_000);
    let inverted = export_range(&zone, Some("2024-01-02T00:00:00Z"), Some("2024-01-01T00:00:00Z")).unwrap_err();
    assert_eq!(inverted.code, "invalid_range");
}

#[test]
fn truncate_requires_confirmation() {
    assert!(sillok::mutations::confirm_truncate(true).is_ok());
    let refused = sillok::mutations::confirm_truncate(false).unwrap_err();
    assert_eq!(refused.code, "confirmation_required");
    assert_eq!(refused.message, "truncate requires --yes");
}

#[test]
fn fresh_ids_are_version_seven() {
    let v = ChronicleId::new_v7().as_u128();
    assert_eq!((v >> 76) & 0xf, 7);
    assert_eq!((v >> 62) & 0x3, 2);
}

#[test]
fn day_attribution_follows_the_selected_zone() {
    let seoul = ZoneChoice::parse(Some("Asia/Seoul")).unwrap();
    let evening = seoul.parse_timestamp("2026-05-13T21:30:00").unwrap();
    assert_eq!(evening.as_millis(), 1_778_675_400_000);
    let key = seoul.day_key(evening).unwrap();
    assert_eq!(key.date, "2026-05-13");
    assert_eq!(key.timezone, "Asia/Seoul");
    let utc = ZoneChoice::parse(Some("UTC")).unwrap();
    let late = utc.parse_timestamp("2026-05-13T20:00:00Z").unwrap();
    assert_eq!(utc.day_key(late).unwrap().date, "2026-05-13");
    assert_eq!(seoul.day_key(late).unwrap().date, "2026-05-14");
    let offset = utc.parse_timestamp("2026-05-13T21:30:00+09:00").unwrap();
    assert_eq!(offset.as_millis(), evening.as_millis());
}

#[test]
fn dates_and_zones_are_checked() {
    let utc = ZoneChoice::parse(Some("UTC")).unwrap();
    let key = utc.parse_date("2026-05-13").unwrap();
    assert_eq!(key.date, "2026-05-13");
    assert_eq!(key.timezone, "UTC");
    assert_eq!(utc.parse_date("2026-13-01").unwrap_err().code, "invalid_date");
    assert_eq!(utc.parse_timestamp("yesterday").unwrap_err().code, "invalid_timestamp");
    assert_eq!(ZoneChoice::parse(Some("Mars/Olympus")).unwrap_err().code, "invalid_timezone");
    let denver = ZoneChoice::parse(Some("America/Denver")).unwrap();
    assert_eq!(denver.parse_timestamp("2026-11-01T01:30:00").unwrap_err().code, "ambiguous_timestamp");
    assert_eq!(denver.parse_timestamp("2026-03-08T02:30:00").unwrap_err().code, "invalid_timestamp");
}

#[test]
fn the_clock_reads_a_representable_instant() {
    let now = Timestamp::now();
    assert!(now.as_millis() > 1_700_000_000_000);
    assert!(now.to_utc().is_ok());
}

#[test]
fn resolution_outcomes_become_results() {
    use_resolution();
}

fn use_resolution() {
    let ok = sillok::domain::time::resolution_result("2026-05-13T10:00:00", "UTC", (0, 42)).unwrap();
    assert_eq!(ok.as_millis(), 42);
    let twice = sillok::domain::time::resolution_result("x", "America/Denver", (1, 0)).unwrap_err();
    assert_eq!(twice.code, "ambiguous_timestamp");
    assert_eq!(twice.message, "timestamp `x` is ambiguous in America/Denver");
    let gap = sillok::domain::time::resolution_result("x", "local", (2, 0)).unwrap_err();
    assert_eq!(gap.code, "invalid_timestamp");
    assert_eq!(gap.message, "timestamp `x` does not exist in local");
}

#[test]
fn ids_order_as_their_bytes() {
    let a = [0u8; 16];
    let mut b = [0u8; 16];
    b[15] = 1;
    let mut c = [0u8; 16];
    c[0] = 1;
    let ids: Vec<u128> = [a, b, c].iter().map(|x| ChronicleId::from_bytes(*x).as_u128()).collect();
    assert!(ids[0] < ids[1] && ids[1] < ids[2]);
    assert!(a < b && b < c);
    assert_eq!(ChronicleId::from_bytes(c).as_bytes(), c);
}

#[test]
fn export_range_reads_naive_bounds_in_the_zone() {
    let seoul = ZoneChoice::parse(Some("Asia/Seoul")).unwrap();
    let (from, to) = export_range(&seoul, Some("2026-05-13T00:00:00"), Some("2026-05-13 23:59:59"))
        .unwrap()
        .unwrap();
    assert_eq!(from.as_millis(), 1_778_598_000_000);
    assert_eq!(to.as_millis(), 1_778_684_399_000);
    let bad = export_range(&seoul, Some("2026-05-13T00:00:00"), Some("later")).unwrap_err();
    assert_eq!(bad.code, "invalid_timestamp");
}

#[test]
fn optional_ids_parse_back_from_their_text() {
    let id = ChronicleId::new_v7();
    let parsed = sillok::mutation_helpers::parse_optional_id(Some(id.to_string())).unwrap();
    assert_eq!(parsed, Some(id));
    assert_eq!(sillok::mutation_helpers::parse_optional_id(None).unwrap(), None);
}
