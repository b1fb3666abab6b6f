use waitlist_bot::coordinator::{
    finish_verify, is_mod, list_pending, show, verify, VerifyOutcome, VerifyStep, ADMIN_ROLE_ID,
    MODERATOR_ROLE_ID, VERIFIED_ROLE_ID,
};
use waitlist_bot::registry::{Registry, RegistryUnavailable};
use waitlist_bot::sync::{full_resync, listen, member_joined, member_left, Event, MemberInfo};
use waitlist_bot::Data;

fn member(id: u64, name: &str, verified: bool) -> MemberInfo {
    MemberInfo { id, name: name.to_string(), verified }
}

fn ids(registry: &Registry) -> Vec<u64> {
    registry.snapshot().unwrap().iter().map(|m| m.id).collect()
}

fn names(registry: &Registry) -> Vec<String> {
    list_pending(registry).unwrap()
}

#[test]
fn insert_appends_and_renames_in_place() {
    let mut r = Registry::new();
    assert_eq!(r.insert(1, "a".to_string()), Ok(()));
    assert_eq!(r.insert(2, "b".to_string()), Ok(()));
    assert_eq!(r.insert(1, "a2".to_string()), Ok(()));
    assert_eq!(ids(&r), vec![1, 2]);
    assert_eq!(names(&r), vec!["a2".to_string(), "b".to_string()]);
    assert_eq!(r.contains(1), Ok(true));
    assert_eq!(r.contains(3), Ok(false));
}

#[test]
fn remove_reports_whether_present() {
    let mut r = Registry::new();
    r.insert(1, "a".to_string()).unwrap();
    r.insert(2, "b".to_string()).unwrap();
    r.insert(3, "c".to_string()).unwrap();
    assert_eq!(r.remove(2), Ok(true));
    assert_eq!(r.remove(2), Ok(false));
    assert_eq!(ids(&r), vec![1, 3]);
}

#[test]
fn unavailable_registry_refuses_everything() {
    let mut r = Registry::new();
    r.insert(1, "a".to_string()).unwrap();
    r.mark_unavailable();
    assert!(!r.available());
    assert_eq!(r.insert(2, "b".to_string()), Err(RegistryUnavailable));
    assert_eq!(r.remove(1), Err(RegistryUnavailable));
    assert_eq!(r.contains(1), Err(RegistryUnavailable));
    assert!(r.snapshot().is_err());
    assert_eq!(list_pending(&r), Err(RegistryUnavailable));
}

#[test]
fn interleaved_updates_keep_net_inserts() {
    let mut r = Registry::new();
    r.insert(10, "x".to_string()).unwrap();
    r.insert(20, "y".to_string()).unwrap();
    r.remove(10).unwrap();
    r.insert(30, "z".to_string()).unwrap();
    r.remove(30).unwrap();
    r.insert(10, "x".to_string()).unwrap();
    r.remove(20).unwrap();
    r.insert(20, "y".to_string()).unwrap();
    let mut got = ids(&r);
    got.sort();
    assert_eq!(got, vec![10, 20]);
}

#[test]
fn resync_lists_only_unverified() {
    let members = vec![member(1, "A", false), member(2, "B", true), member(3, "C", false)];
    let r = full_resync(&members);
    assert_eq!(names(&r), vec!["A".to_string(), "C".to_string()]);
    assert_eq!(ids(&r), vec![1, 3]);
}

#[test]
fn verify_absent_member_needs_no_grant() {
    let r = Registry::new();
    assert_eq!(verify(&r, 7), VerifyStep::Done(VerifyOutcome::AlreadyVerified));
}

#[test]
fn verify_on_unavailable_registry_grants_nothing() {
    let mut r = Registry::new();
    r.insert(7, "A".to_string()).unwrap();
    r.mark_unavailable();
    assert_eq!(verify(&r, 7), VerifyStep::Done(VerifyOutcome::AlreadyVerified));
}

#[test]
fn failed_grant_keeps_member_pending() {
    let mut r = Registry::new();
    r.insert(7, "A".to_string()).unwrap();
    assert_eq!(verify(&r, 7), VerifyStep::Grant);
    assert_eq!(finish_verify(&mut r, 7, false), VerifyOutcome::GrantFailed);
    assert_eq!(r.contains(7), Ok(true));
}

#[test]
fn granted_member_leaves_registry() {
    let mut r = Registry::new();
    r.insert(7, "A".to_string()).unwrap();
    r.insert(8, "B".to_string()).unwrap();
    assert_eq!(verify(&r, 7), VerifyStep::Grant);
    assert_eq!(finish_verify(&mut r, 7, true), VerifyOutcome::Verified);
    assert_eq!(r.contains(7), Ok(false));
    assert_eq!(ids(&r), vec![8]);
}

#[test]
fn granted_member_with_broken_registry_is_stale_until_resync() {
    let mut r = Registry::new();
    r.insert(7, "A".to_string()).unwrap();
    assert_eq!(verify(&r, 7), VerifyStep::Grant);
    r.mark_unavailable();
    assert_eq!(finish_verify(&mut r, 7, true), VerifyOutcome::VerifiedButRegistryStale);
    let rebuilt = full_resync(&vec![member(7, "A", true), member(9, "C", false)]);
    assert_eq!(ids(&rebuilt), vec![9]);
}

#[test]
fn leave_of_unknown_member_is_no_error() {
    let mut r = Registry::new();
    r.insert(1, "a".to_string()).unwrap();
    assert_eq!(member_left(&mut r, 99), Ok(()));
    assert_eq!(ids(&r), vec![1]);
}

#[test]
fn verify_twice_is_already_verified() {
    let mut r = Registry::new();
    r.insert(7, "A".to_string()).unwrap();
    assert_eq!(verify(&r, 7), VerifyStep::Grant);
    assert_eq!(finish_verify(&mut r, 7, true), VerifyOutcome::Verified);
    assert_eq!(verify(&r, 7), VerifyStep::Done(VerifyOutcome::AlreadyVerified));
}

#[test]
fn join_inserts_only_unverified() {
    let mut r = Registry::new();
    assert_eq!(member_joined(&mut r, &member(1, "a", true)), Ok(()));
    assert_eq!(member_joined(&mut r, &member(2, "b", false)), Ok(()));
    assert_eq!(ids(&r), vec![2]);
    r.mark_unavailable();
    assert_eq!(member_joined(&mut r, &member(3, "c", false)), Err(RegistryUnavailable));
    assert_eq!(member_joined(&mut r, &member(4, "d", true)), Ok(()));
}

#[test]
fn listen_dispatches_events() {
    let mut data = Data::new();
    let ready = Event::Ready(vec![member(1, "A", false), member(2, "B", true)]);
    assert_eq!(listen(&mut data.waitlist, ready), Ok(()));
    assert_eq!(listen(&mut data.waitlist, Event::MemberJoined(member(3, "C", false))), Ok(()));
    assert_eq!(listen(&mut data.waitlist, Event::MemberLeft(1)), Ok(()));
    assert_eq!(ids(&data.waitlist), vec![3]);
    data.waitlist.mark_unavailable();
    assert_eq!(listen(&mut data.waitlist, Event::MemberLeft(3)), Err(RegistryUnavailable));
    assert_eq!(
        listen(&mut data.waitlist, Event::Ready(vec![member(5, "E", false)])),
        Err(RegistryUnavailable)
    );
}

#[test]
fn messages_are_distinct() {
    assert_eq!(VerifyOutcome::AlreadyVerified.message("bob"), "bob is already verified!");
    assert_eq!(
        VerifyOutcome::Verified.message("bob"),
        "bob should now be able to access the server!"
    );
    assert_eq!(
        VerifyOutcome::GrantFailed.message("bob"),
        "Could not allow bob access to server: the verified role could not be granted!"
    );
    let stale = VerifyOutcome::VerifiedButRegistryStale.message("bob");
    assert_eq!(
        stale,
        "bob should now be able to access the server, but the waitlist could not be updated and may still list them!"
    );
    assert_ne!(stale, VerifyOutcome::Verified.message("bob"));
}

#[test]
fn show_renders_list() {
    let mut r = Registry::new();
    assert_eq!(show(&r), "Users on Waitlist\nNone!");
    r.insert(1, "ann".to_string()).unwrap();
    r.insert(2, "ben".to_string()).unwrap();
    assert_eq!(show(&r), "Users on Waitlist\n- ann\n- ben");
    r.mark_unavailable();
    assert_eq!(show(&r), "Couldn't fetch the list of users on the waitlist!");
}

#[test]
fn moderator_roles_are_recognised() {
    assert!(is_mod(&vec![5, MODERATOR_ROLE_ID]));
    assert!(is_mod(&vec![ADMIN_ROLE_ID]));
    assert!(!is_mod(&vec![VERIFIED_ROLE_ID, 5]));
    assert!(!is_mod(&vec![]));
}
