use std::cell::RefCell;

use nasmirror::engine::robocopy::{
    common_args, copy_command, copy_only_args, default_log_name, log_file_name, next_log_attempt,
    parse_count, parse_line,
    parse_size, parse_summary, scan_command, CopyTally, RcLine, ScanTally,
};
use nasmirror::engine::types::{AdvancedOptions, CopyMode};

#[test]
fn parse_line_file() {
    match parse_line("\t\t        12345\tC:\\data\\photo.jpg") {
        RcLine::File { bytes, path } => {
            assert_eq!(bytes, 12345);
            assert_eq!(path, "C:\\data\\photo.jpg");
        }
        _ => panic!("expected a file line"),
    }
}

#[test]
fn parse_line_extra_and_other() {
    assert!(matches!(parse_line("\t\t*EXTRA File \t\t  100\told.txt"), RcLine::ExtraDeleted));
    assert!(matches!(parse_line("   Origen : C:\\data\\"), RcLine::Other(_)));
}

#[test]
fn parse_summary_rows_by_position() {
    let tail: Vec<String> = [
        "               Total    Copiado   Omitido  No coinc.    ERROR    Extras",
        "Directorios :         5         2         3         0         0         0",
        "   Archivos :        10         4         6         0         1         2",
        "      Bytes :      2048      1024      1024         0       512         0",
        "     Tiempos :   0:00:05   0:00:02                       0:00:00   0:00:03",
    ]
    .iter()
    .map(|s| s.to_string())
    .collect();
    let s = parse_summary(&tail, 9).expect("summary");
    assert_eq!(s.exit_code, 9);
    assert_eq!(s.dirs_copied, 2);
    assert_eq!(s.files_copied, 4);
    assert_eq!(s.files_failed, 1);
    assert_eq!(s.files_extra, 2);
    assert_eq!(s.bytes_copied, 1024);
    assert_eq!(s.bytes_failed, 512);
}

#[test]
fn parse_summary_incomplete() {
    assert!(parse_summary(&["nothing to see here".to_string()], 0).is_none());
}

#[test]
fn parse_size_suffixes() {
    assert_eq!(parse_size("0"), 0);
    assert_eq!(parse_size("1500"), 1500);
    assert_eq!(parse_size("2k"), 2048);
    assert_eq!(parse_size("1.5m"), 1_572_864);
    assert_eq!(parse_size("1g"), 1024 * 1024 * 1024);
    assert_eq!(parse_size(""), 0);
    assert_eq!(parse_size("abc"), 0);
}

#[test]
fn args_include_options() {
    let adv = AdvancedOptions {
        fat_time_tolerance: true,
        exclude_dirs: vec![".git".into(), String::new()],
        exclude_files: vec!["*.tmp".into()],
        ..AdvancedOptions::default()
    };
    let args = common_args(CopyMode::Mirror, &adv);
    assert!(args.contains(&"/FFT".to_string()));
    assert!(args.windows(2).any(|w| w[0] == "/XD" && w[1] == ".git"));
    assert!(args.windows(2).any(|w| w[0] == "/XF" && w[1] == "*.tmp"));
    assert_eq!(args.iter().filter(|a| *a == "/XD").count(), 1);
    assert!(!args.contains(&"/L".to_string()));

    assert_eq!(copy_only_args(&adv), vec!["/MT:16".to_string()]);
}

#[test]
fn default_flags_exactly() {
    let adv = AdvancedOptions::default();
    assert_eq!(common_args(CopyMode::Accumulate, &adv), vec!["/BYTES", "/NP", "/NC", "/NDL", "/R:1", "/W:2"]);
}

#[test]
fn scan_and_copy_commands() {
    let adv = AdvancedOptions { unbuffered_io: true, threads: 8, ..AdvancedOptions::default() };
    assert_eq!(
        scan_command(r"C:\a", r"D:\b", CopyMode::Mirror, &adv),
        vec![r"C:\a", r"D:\b", "/MIR", "/BYTES", "/NP", "/NC", "/NDL", "/R:1", "/W:2", "/L"]
    );
    assert_eq!(
        copy_command(r"C:\a", r"D:\b", CopyMode::Accumulate, &adv),
        vec![r"C:\a", r"D:\b", "/E", "/BYTES", "/NP", "/NC", "/NDL", "/R:1", "/W:2", "/MT:8", "/J"]
    );
}

#[test]
fn parse_size_rounds_and_rejects() {
    assert_eq!(parse_size("1.5k"), 1536);
    assert_eq!(parse_size("0.1k"), 102);
    assert_eq!(parse_size("1t"), 1024u64.pow(4));
    assert_eq!(parse_size("-1"), 0);
}

#[test]
fn scan_tally_counts_files_and_deletions() {
    let mut t = ScanTally::new();
    for line in ["\t\t   100\ta.txt", "\t\t*EXTRA File \t\t  5\told.txt", "noise", "\t 50\tb.txt"] {
        assert!(t.can_count(line));
        t.count(line);
    }
    let s = t.finish(Some(1)).unwrap();
    assert_eq!((s.files_to_copy, s.bytes_to_copy, s.files_to_delete), (2, 150, 1));
    assert_eq!(t.finish(Some(8)).err().unwrap(), "robocopy exited with code 8 while scanning");
    assert_eq!(t.finish(None).err().unwrap(), "robocopy exited with code -1 while scanning");
}

#[test]
fn copy_tally_keeps_the_last_lines() {
    let mut t = CopyTally::new();
    for i in 0..100u64 {
        let line = format!("\t {}\tf{}.txt", i, i);
        assert!(t.can_count(&line));
        t.count(line);
    }
    assert_eq!(t.tail.len(), 80);
    assert_eq!(t.tail[0], "\t 20\tf20.txt");
    assert_eq!(t.files_done, 100);
    assert_eq!(t.bytes_done, 4950);
    assert_eq!(t.current_file, "f99.txt");
}

#[test]
fn log_names_carry_the_attempt() {
    assert_eq!(log_file_name("2026-09-23_21-05-00", 0), "backup_2026-09-23_21-05-00.log");
    assert_eq!(log_file_name("2026-09-23_21-05-00", 2), "backup_2026-09-23_21-05-00_2.log");
    assert_eq!(next_log_attempt(0), Some(2));
    assert_eq!(next_log_attempt(2), Some(3));
}

#[test]
fn counts_read_as_integers_or_zero() {
    assert_eq!(parse_count("42"), 42);
    assert_eq!(parse_count("4x"), 0);
    assert_eq!(parse_count(""), 0);
}

#[test]
fn log_paths_do_not_collide_within_the_same_second() {
    let files: RefCell<Vec<String>> = RefCell::new(Vec::new());
    let taken = |name: &str| {
        let stem = name.trim_end_matches(".log");
        files.borrow().iter().any(|f| f == name || *f == format!("{stem}.json"))
    };
    let stamp = "2026-09-23_21-05-00";
    let first = default_log_name(stamp, &taken);
    files.borrow_mut().push(first.clone());
    let second = default_log_name(stamp, &taken);
    assert_ne!(first, second);
    // A run that fails before copying leaves only the .json record: that
    // second counts as taken too.
    files.borrow_mut().push(second.trim_end_matches(".log").to_string() + ".json");
    let third = default_log_name(stamp, &taken);
    assert_ne!(third, first);
    assert_ne!(third, second);
}

#[test]
fn common_args_never_list_nor_hide_deletions() {
    let adv = AdvancedOptions {
        retries: 3,
        wait_secs: 10,
        dst_adjust: true,
        exclude_dirs: vec!["node_modules".into()],
        extra_flags: vec!["/XJ".into(), String::new()],
        ..AdvancedOptions::default()
    };
    let mirror = common_args(CopyMode::Mirror, &adv);
    let accumulate = common_args(CopyMode::Accumulate, &adv);
    assert_eq!(mirror, accumulate);
    assert_eq!(&mirror[..6], ["/BYTES", "/NP", "/NC", "/NDL", "/R:3", "/W:10"]);
    assert!(!mirror.contains(&"/XX".to_string()));
    assert!(!mirror.contains(&"/L".to_string()));
    assert_eq!(
        mirror,
        vec!["/BYTES", "/NP", "/NC", "/NDL", "/R:3", "/W:10", "/DST", "/XD", "node_modules", "/XJ"]
    );
}
