use terminal::ssh_lease::{
    select_ssh_lease, SshLeaseAcquireRequest, SshLeaseAcquireResolution, SshLeaseSelection,
};

#[test]
fn ordinary_reconnect_reuses_the_installed_identity() {
    assert_eq!(
        SshLeaseSelection::ReuseInstalled,
        select_ssh_lease(Some(&"persisted-v1"), &"persisted-v1")
    );
}

#[test]
fn missing_or_changed_installed_identity_acquires_a_replacement() {
    assert_eq!(
        SshLeaseSelection::AcquireReplacement,
        select_ssh_lease::<&str>(None, &"persisted-v1")
    );
    assert_eq!(
        SshLeaseSelection::AcquireReplacement,
        select_ssh_lease(Some(&"persisted-v1"), &"persisted-v2")
    );
}

#[test]
fn stale_generation_cannot_install_an_acquired_lease() {
    let request = SshLeaseAcquireRequest::new(4, "persisted-v1");

    assert_eq!(
        SshLeaseAcquireResolution::RejectStale,
        request.resolve(5, Some(&"persisted-v1"), true)
    );
}

#[test]
fn changed_desired_identity_rejects_an_acquired_lease() {
    let request = SshLeaseAcquireRequest::new(5, "persisted-v1");

    assert_eq!(
        SshLeaseAcquireResolution::RejectStale,
        request.resolve(5, Some(&"persisted-v2"), true)
    );
    assert_eq!(
        SshLeaseAcquireResolution::RejectStale,
        request.resolve(5, None, true)
    );
}

#[test]
fn newer_acquire_installs_before_older_result_is_rejected() {
    let older = SshLeaseAcquireRequest::new(5, "persisted-v1");
    let newer = SshLeaseAcquireRequest::new(6, "persisted-v2");

    assert_eq!(
        SshLeaseAcquireResolution::Install,
        newer.resolve(6, Some(&"persisted-v2"), true)
    );
    assert_eq!(
        SshLeaseAcquireResolution::RejectStale,
        older.resolve(6, Some(&"persisted-v2"), true)
    );
}

#[test]
fn current_acquire_failure_has_an_explicit_terminal_resolution() {
    let request = SshLeaseAcquireRequest::new(5, "persisted-v1");

    assert_eq!(
        SshLeaseAcquireResolution::FailCurrent,
        request.resolve(5, Some(&"persisted-v1"), false)
    );
    assert_eq!(
        SshLeaseAcquireResolution::RejectStale,
        request.resolve(6, Some(&"persisted-v1"), false)
    );
}

#[test]
fn request_keeps_its_generation_and_identity() {
    let request = SshLeaseAcquireRequest::new(9, 42u32);
    assert_eq!(request.generation(), 9);
    assert_eq!(*request.identity(), 42);
}
