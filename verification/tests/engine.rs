use nasmirror::engine::types::Outcome;
use nasmirror::engine::{
    classify_exit_code, is_network_path, lexical_normalize, normalize, share_root, validate_paths,
    PathError,
};

fn no_folder(_: &str) -> bool {
    false
}

fn no_canonical_form(_: &str) -> Option<String> {
    None
}

#[test]
fn normalize_paths() {
    assert_eq!(normalize("  C:/Data/Photos/ "), "c:\\data\\photos");
    assert_eq!(normalize(r"\\NAS\Backup\"), r"\\nas\backup");
}

#[test]
fn share_root_extracts_host_and_share() {
    assert_eq!(share_root(r"\\nas\backup\photos").as_deref(), Some(r"\\nas\backup"));
    assert_eq!(share_root(r"\\nas\backup").as_deref(), Some(r"\\nas\backup"));
    assert_eq!(share_root(r"\\nas"), None);
    assert_eq!(share_root(r"D:\backups"), None);
}

#[test]
fn validate_paths_does_not_touch_network_sources() {
    assert!(validate_paths(r"\\nas\share\photos", r"D:\mirror", &no_folder, &no_canonical_form)
        .is_ok());
    assert!(matches!(
        validate_paths(r"\\nas\share", r"\\NAS\share\sub", &no_folder, &no_canonical_form),
        Err(PathError::DestinationInsideSource)
    ));
    assert!(matches!(
        validate_paths(r"\\nas\share\photos", r"\\nas\share", &no_folder, &no_canonical_form),
        Err(PathError::SourceInsideDestination)
    ));
}

#[test]
fn lexical_normalize_resolves_dot_dot() {
    assert_eq!(lexical_normalize(r"C:\a\b\..\c"), r"C:\a\c");
    assert_eq!(lexical_normalize(r"C:\a\.\b"), r"C:\a\b");
    assert_eq!(lexical_normalize(r"C:\..\..\a"), r"C:\a");
    assert_eq!(lexical_normalize(r"\\nas\backup\x\..\y"), r"\\nas\backup\y");
}

#[test]
fn robocopy_exit_codes() {
    assert_eq!(classify_exit_code(0), Outcome::Success);
    assert_eq!(classify_exit_code(1), Outcome::Success);
    assert_eq!(classify_exit_code(3), Outcome::Success);
    assert_eq!(classify_exit_code(4), Outcome::SuccessWithMismatches);
    assert_eq!(classify_exit_code(9), Outcome::Failed);
    assert_eq!(classify_exit_code(16), Outcome::Failed);
}

#[test]
fn missing_local_source_is_reported_with_its_path() {
    match validate_paths(r"C:\nowhere", r"D:\x", &no_folder, &no_canonical_form) {
        Err(PathError::SourceMissing(s)) => assert_eq!(s, r"C:\nowhere"),
        _ => panic!("expected SourceMissing"),
    }
    let e = PathError::SourceMissing(r"C:\nowhere".to_string());
    assert_eq!(e.message(), r"the source folder does not exist: C:\nowhere");
}

#[test]
fn path_rules_on_existing_folders() {
    let is_dir = |p: &str| p == r"C:\src";
    let canon = |p: &str| -> Option<String> {
        if p.eq_ignore_ascii_case(r"C:\src") || p.eq_ignore_ascii_case(r"C:\") {
            Some(format!(r"\\?\{}", p))
        } else {
            None
        }
    };
    assert!(matches!(
        validate_paths(r"C:\src", "  ", &is_dir, &canon),
        Err(PathError::DestinationEmpty)
    ));
    assert!(matches!(
        validate_paths(r"C:\src", r"C:\SRC\", &is_dir, &canon),
        Err(PathError::SameSourceAndDestination)
    ));
    assert!(matches!(
        validate_paths(r"C:\src", r"C:\src\sub\..", &is_dir, &canon),
        Err(PathError::SameSourceAndDestination)
    ));
    assert!(matches!(
        validate_paths(r"C:\src", r"C:\src\..\src\data", &is_dir, &canon),
        Err(PathError::DestinationInsideSource)
    ));
    assert!(validate_paths(r"C:\src", r"C:\src-copy", &is_dir, &canon).is_ok());
    assert!(matches!(
        validate_paths(r"C:\src", r"C:\", &is_dir, &canon),
        Err(PathError::SourceInsideDestination)
    ));
}

#[test]
fn network_paths_are_recognised_with_either_slash() {
    assert!(is_network_path(r"  \\nas\share"));
    assert!(is_network_path("//nas/share"));
    assert!(!is_network_path(r"C:\data"));
}

#[test]
fn path_error_messages() {
    assert_eq!(PathError::DestinationEmpty.message(), "choose a destination folder");
    assert_eq!(
        PathError::SameSourceAndDestination.message(),
        "source and destination are the same folder"
    );
}

/// A disk with these folders, as `is_dir` and `canonicalize` see it (case
/// insensitive, canonical form with the verbatim prefix Windows adds).
fn disk(folders: &'static [&'static str]) -> (impl Fn(&str) -> bool, impl Fn(&str) -> Option<String>) {
    let find = move |p: &str| {
        let p = p.trim_end_matches('\\');
        folders.iter().find(|f| f.trim_end_matches('\\').eq_ignore_ascii_case(p)).map(|f| f.to_string())
    };
    let is_dir = move |p: &str| find(p).is_some();
    let canonicalize = move |p: &str| find(p).map(|f| format!(r"\\?\{f}"));
    (is_dir, canonicalize)
}

#[test]
fn validate_paths_rules() {
    let (is_dir, canon) = disk(&[r"C:\", r"C:\Temp", r"C:\Temp\nasmirror-test-1"]);
    let src_s = r"C:\Temp\nasmirror-test-1";
    assert!(matches!(
        validate_paths(&format!("{src_s}-missing"), r"D:\x", &is_dir, &canon),
        Err(PathError::SourceMissing(_))
    ));
    assert!(matches!(validate_paths(src_s, "  ", &is_dir, &canon), Err(PathError::DestinationEmpty)));
    assert!(matches!(
        validate_paths(src_s, &format!("{}\\", src_s.to_uppercase()), &is_dir, &canon),
        Err(PathError::SameSourceAndDestination)
    ));
    assert!(matches!(
        validate_paths(src_s, &format!("{src_s}\\sub"), &is_dir, &canon),
        Err(PathError::DestinationInsideSource)
    ));
    assert!(validate_paths(src_s, &format!("{src_s}-copy"), &is_dir, &canon).is_ok());
    assert!(matches!(
        validate_paths(src_s, r"C:\Temp", &is_dir, &canon),
        Err(PathError::SourceInsideDestination)
    ));
}

#[test]
fn validate_paths_resolves_traversal() {
    let (is_dir, canon) = disk(&[r"C:\", r"C:\Temp", r"C:\Temp\base", r"C:\Temp\base\source", r"C:\Temp\base\source\sub"]);
    let src_s = r"C:\Temp\base\source";
    assert!(matches!(
        validate_paths(src_s, &format!(r"{src_s}\sub\.."), &is_dir, &canon),
        Err(PathError::SameSourceAndDestination)
    ));
    assert!(matches!(
        validate_paths(src_s, &format!(r"{src_s}\..\source\data"), &is_dir, &canon),
        Err(PathError::DestinationInsideSource)
    ));
    assert!(validate_paths(src_s, &format!(r"{src_s}\..\dest"), &is_dir, &canon).is_ok());
}
