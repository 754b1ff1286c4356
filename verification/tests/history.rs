use nasmirror::engine::types::{EngineSummary, ResticSummary, RobocopySummary};
use nasmirror::history::{
    arrange, copied_totals, date_from_stem, deletion_outcome, entry_file_name, log_tail, Removal,
};

#[test]
fn date_from_log_name() {
    assert_eq!(date_from_stem("backup_2026-09-23_21-05-00").as_deref(), Some("2026-09-23 21:05:00"));
    assert_eq!(
        date_from_stem("backup_2026-09-23_21-05-00_2").as_deref(),
        Some("2026-09-23 21:05:00")
    );
    assert_eq!(date_from_stem("something-else"), None);
    assert_eq!(date_from_stem("backup_2026-09-23"), None);
}

#[test]
fn ids_that_escape_the_log_dir_are_refused() {
    for id in [r"..\..\profiles", r"C:\Windows\win", "..", ".", "", "sub/other"] {
        assert_eq!(entry_file_name(id, "log"), Err("invalid log id".to_string()), "should reject {id:?}");
    }
    assert_eq!(
        entry_file_name("backup_2026-01-01_00-00-00", "json"),
        Ok("backup_2026-01-01_00-00-00.json".to_string())
    );
}

#[test]
fn long_logs_show_their_tail() {
    assert_eq!(log_tail("short".to_string()), "short");
    let long: String = "a".repeat(200_000) + "xyz";
    let shown = log_tail(long);
    assert!(shown.starts_with("[...log trimmed: showing the last 200000 characters...]\n"));
    assert!(shown.ends_with("xyz"));
    assert_eq!(shown.chars().count(), 200_000 + 56);
}

#[test]
fn deletion_complains_only_if_there_was_nothing() {
    assert_eq!(deletion_outcome(Removal::Removed, Removal::Missing), Ok(()));
    assert_eq!(deletion_outcome(Removal::Missing, Removal::Removed), Ok(()));
    assert_eq!(
        deletion_outcome(Removal::Missing, Removal::Missing),
        Err("that history entry no longer exists".to_string())
    );
    assert_eq!(
        deletion_outcome(Removal::Failed("busy".into()), Removal::Removed),
        Err("could not delete: busy".to_string())
    );
}

#[test]
fn list_mixes_entries_and_old_logs_newest_first() {
    let entry_ids = vec!["backup_2026-02-02_10-00-00".to_string()];
    let entry_stems = vec!["backup_2026-02-02_10-00-00".to_string()];
    let log_stems = vec![
        "backup_2026-01-01_10-00-00".to_string(),
        "backup_2026-02-02_10-00-00".to_string(),
        "backup_2026-03-03_09-00-00".to_string(),
    ];
    let rows = arrange(&entry_ids, &entry_stems, &log_stems);
    let ids: Vec<&str> = rows.iter().map(|r| r.id.as_str()).collect();
    assert_eq!(
        ids,
        ["backup_2026-03-03_09-00-00", "backup_2026-02-02_10-00-00", "backup_2026-01-01_10-00-00"]
    );
    assert_eq!(rows[1].entry, Some(0));
    assert_eq!(rows[2].entry, None);
    assert_eq!(rows[2].finished_at, "2026-01-01 10:00:00");
}

#[test]
fn runs_with_the_same_id_keep_their_order() {
    let entry_ids = vec!["b".to_string(), "a".to_string(), "b".to_string()];
    let rows = arrange(&entry_ids, &Vec::new(), &vec!["zz".to_string()]);
    let order: Vec<(String, Option<usize>)> = rows.iter().map(|r| (r.id.clone(), r.entry)).collect();
    assert_eq!(
        order,
        vec![("zz".to_string(), None), ("b".into(), Some(0)), ("b".into(), Some(2)), ("a".into(), Some(1))]
    );
    assert_eq!(rows[0].finished_at, "");
}

#[test]
fn copied_totals_per_engine() {
    let r = RobocopySummary {
        exit_code: 1,
        dirs_copied: 1,
        files_copied: 4,
        files_failed: 0,
        files_extra: 0,
        bytes_copied: 1024,
        bytes_failed: 0,
    };
    assert_eq!(copied_totals(&Some(EngineSummary::Robocopy(r))), (4, 1024));
    let s = ResticSummary {
        snapshot_id: "x".into(),
        files_new: 3,
        files_changed: 1,
        files_unmodified: 7,
        data_added: 512,
        total_files_processed: 11,
        total_bytes_processed: 9000,
    };
    assert_eq!(copied_totals(&Some(EngineSummary::Restic(s))), (4, 512));
    assert_eq!(copied_totals(&None), (0, 0));
}
