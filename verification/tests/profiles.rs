use nasmirror::engine::types::{AdvancedOptions, CopyMode, Credentials, Engine, Profile, ResticOptions};
use nasmirror::profiles::{
    app_data_dir, corrupt_path, delete_profile, find_profile, join_path, load_profiles, log_dir,
    profiles_path, save_profiles, upsert_profile, LoadPlan, ProfilesFile,
};

fn profile(id: &str) -> Profile {
    Profile {
        id: id.into(),
        name: format!("Job {id}"),
        source: r"C:\source".into(),
        destination: r"D:\mirror".into(),
        mode: CopyMode::Mirror,
        credentials: None,
        wake_on_lan: None,
        advanced: AdvancedOptions::default(),
        engine: Engine::Robocopy,
        restic: ResticOptions::default(),
    }
}

#[test]
fn saves_and_deletes_jobs() {
    let jobs = upsert_profile(Vec::new(), profile("a"));
    let jobs = upsert_profile(jobs, profile("b"));
    let ids: Vec<String> = jobs.iter().map(|p| p.id.clone()).collect();
    assert_eq!(ids, ["a", "b"]);
    let jobs = delete_profile(jobs, "a");
    assert_eq!(jobs.len(), 1);
    assert_eq!(jobs[0].id, "b");
}

#[test]
fn saving_again_replaces_the_job_in_place() {
    let jobs = upsert_profile(upsert_profile(Vec::new(), profile("a")), profile("b"));
    let mut renamed = profile("a");
    renamed.name = "Renamed".into();
    let jobs = upsert_profile(jobs, renamed);
    assert_eq!(jobs.len(), 2);
    assert_eq!(jobs[0].name, "Renamed");
}

#[test]
fn passwords_are_never_saved() {
    let mut p = profile("a");
    p.credentials = Some(Credentials { user: "me".into(), password: "secret".into() });
    let jobs = upsert_profile(Vec::new(), p);
    let c = jobs[0].credentials.as_ref().unwrap();
    assert_eq!(c.user, "me");
    assert_eq!(c.password, "");
}

#[test]
fn jobs_are_found_by_id_or_name_in_any_case() {
    let jobs = vec![profile("a"), profile("b")];
    assert_eq!(find_profile(jobs.clone(), "b").map(|p| p.id), Some("b".to_string()));
    assert_eq!(find_profile(jobs.clone(), "JOB A").map(|p| p.id), Some("a".to_string()));
    assert!(find_profile(jobs, "c").is_none());
}

#[test]
fn load_rules() {
    assert!(matches!(load_profiles(ProfilesFile::Missing), LoadPlan::Use(v) if v.is_empty()));
    assert!(matches!(load_profiles(ProfilesFile::Malformed), LoadPlan::SetAside));
    assert!(matches!(load_profiles(ProfilesFile::NotUtf8), LoadPlan::SetAside));
    assert!(matches!(load_profiles(ProfilesFile::Unreadable("denied".into())), LoadPlan::Fail(e) if e == "denied"));
    assert!(matches!(load_profiles(ProfilesFile::Parsed(vec![profile("a")])), LoadPlan::Use(v) if v.len() == 1));
}

#[test]
fn app_paths() {
    assert_eq!(app_data_dir(Some(r"C:\Users\me\AppData\Roaming")), r"C:\Users\me\AppData\Roaming\NASMirror");
    assert_eq!(app_data_dir(None), r".\NASMirror");
    assert_eq!(log_dir(r"C:\x\NASMirror"), r"C:\x\NASMirror\logs");
    assert_eq!(profiles_path(r"C:\x\NASMirror\"), r"C:\x\NASMirror\profiles.json");
    assert_eq!(join_path("C:", "logs"), "C:logs");
    assert_eq!(join_path("", "logs"), "logs");
    let plan = save_profiles(r"C:\x");
    assert_eq!(plan.temp, r"C:\x\profiles.json.tmp");
    assert_eq!(plan.target, r"C:\x\profiles.json");
    assert_eq!(corrupt_path(r"C:\x", "20260101-101010"), r"C:\x\profiles.json.corrupt-20260101-101010");
}
