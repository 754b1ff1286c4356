use std::sync::atomic::AtomicBool;
use std::sync::Arc;

use nasmirror::commands::JobRegistry;

#[test]
fn only_one_job_runs_at_a_time() {
    let mut reg = JobRegistry::new();
    assert!(!reg.is_busy());
    assert!(reg.try_register("j1".into(), Arc::new(AtomicBool::new(false))).is_ok());
    assert_eq!(
        reg.try_register("j2".into(), Arc::new(AtomicBool::new(false))),
        Err("A job is already running. Wait for it to finish, or cancel it.".to_string())
    );
    assert!(reg.flag("j1").is_some());
    assert!(reg.flag("j2").is_none());
    reg.remove("j2");
    assert!(reg.is_busy());
    reg.remove("j1");
    assert!(!reg.is_busy());
    assert!(reg.try_register("j2".into(), Arc::new(AtomicBool::new(false))).is_ok());
}

#[test]
fn refused_start_keeps_the_running_jobs_flag() {
    let mut reg = JobRegistry::new();
    let first = Arc::new(AtomicBool::new(false));
    let second = Arc::new(AtomicBool::new(false));
    assert!(reg.try_register("j1".into(), first.clone()).is_ok());
    assert!(reg.try_register("j2".into(), second.clone()).is_err());
    let kept = reg.flag("j1").expect("the running job is still registered");
    assert!(Arc::ptr_eq(kept, &first));
    assert!(!Arc::ptr_eq(kept, &second));
    reg.remove("other");
    assert!(Arc::ptr_eq(reg.flag("j1").unwrap(), &first));
}
