use nasmirror::engine::types::{AdvancedOptions, CopyMode, Credentials, Engine, Outcome, Profile, ResticOptions};
use nasmirror::headless::{exit_code, refusal, unattended_request, Refusal};

fn profile() -> Profile {
    Profile {
        id: "p".into(),
        name: "Nightly".into(),
        source: r"C:\a".into(),
        destination: r"D:\b".into(),
        mode: CopyMode::Accumulate,
        credentials: None,
        wake_on_lan: None,
        advanced: AdvancedOptions::default(),
        engine: Engine::Robocopy,
        restic: ResticOptions::default(),
    }
}

#[test]
fn exit_codes_follow_the_documentation() {
    assert_eq!(exit_code(Outcome::Success), 0);
    assert_eq!(exit_code(Outcome::NoChanges), 0);
    assert_eq!(exit_code(Outcome::Failed), 1);
    assert_eq!(exit_code(Outcome::ConnectionError), 1);
    assert_eq!(exit_code(Outcome::Cancelled), 2);
    assert_eq!(exit_code(Outcome::SuccessWithMismatches), 4);
    assert_eq!(Refusal::NotFound.exit_code(), 3);
}

#[test]
fn jobs_that_need_a_password_exit_with_five() {
    let mut p = profile();
    p.credentials = Some(Credentials { user: "u".into(), password: String::new() });
    let r = refusal(&Some(p)).unwrap();
    assert_eq!(r, Refusal::NeedsCredentials);
    assert_eq!(r.exit_code(), 5);
    let mut p = profile();
    p.engine = Engine::Restic;
    assert_eq!(refusal(&Some(p)), Some(Refusal::NeedsResticPassword));
    assert_eq!(refusal(&None), Some(Refusal::NotFound));
    assert_eq!(refusal(&Some(profile())), None);
    assert_eq!(
        Refusal::NotFound.message("Nightly"),
        "Job not found: 'Nightly'. Use the same name you gave it in the window."
    );
}

#[test]
fn unattended_runs_carry_no_password() {
    let r = unattended_request(profile(), true);
    assert!(r.password.is_none() && r.restic_password.is_none() && r.dry_run);
}
