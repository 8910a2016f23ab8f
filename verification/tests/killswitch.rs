use vitrail::attribution::FakeAttributionSubsystem;
use vitrail::capture::FakeCaptureSubsystem;
use vitrail::keylog::FakeKeylogSubsystem;
use vitrail::killswitch::nftables::nft_outcome;
use vitrail::killswitch::{exec_error, FakeNftablesBackend, KillSwitchState};
use vitrail::storage::StorageHandle;

fn state() -> KillSwitchState {
    KillSwitchState::with_backend(
        Box::new(FakeNftablesBackend::new()),
        Box::new(FakeCaptureSubsystem::new()),
        Box::new(FakeAttributionSubsystem::new()),
        Box::new(FakeKeylogSubsystem::new()),
        StorageHandle::open_in_memory().expect("ouverture storage en mémoire pour le test"),
    )
}

#[test]
fn cent_cycles_activation_desactivation_sans_fuite() {
    let mut state = state();

    for cycle in 0..100 {
        let activated = state.activate();
        assert_eq!(activated.kill_switch_state, "active", "cycle {cycle}: activation dégradée");
        assert!(
            activated.subsystems.iter().all(|s| s.status == "ok"),
            "cycle {cycle}: un sous-système n'a pas démarré: {:?}",
            activated.subsystems
        );

        let deactivated = state.deactivate();
        assert_eq!(deactivated.kill_switch_state, "inactive", "cycle {cycle}: désactivation dégradée");
        assert!(
            deactivated.subsystems.iter().all(|s| s.status == "off"),
            "cycle {cycle}: un sous-système est resté actif après deactivate(): {:?}",
            deactivated.subsystems
        );

        let report = state.verify_teardown();
        assert!(report.clean, "cycle {cycle}: divergences détectées: {:?}", report.divergences);
    }
}

#[test]
fn etat_initial_inactif_et_six_sous_systemes() {
    let state = state();
    let status = state.current_status();
    assert_eq!(status.kill_switch_state, "inactive");
    let ids: Vec<&str> = status.subsystems.iter().map(|s| s.id.as_str()).collect();
    assert_eq!(ids, vec!["ca", "nftables", "polarproxy", "attribution", "capture", "keylog"]);
    assert!(status.subsystems.iter().all(|s| s.status == "off"));
    assert!(status.last_verification.is_none());
}

#[test]
fn verification_sans_activation_prealable_n_est_pas_propre() {
    let mut state = state();
    let report = state.verify_teardown();
    assert!(!report.clean);
    assert!(!report.divergences.is_empty());
}

#[test]
fn activation_journalise_avant_et_apres() {
    let mut state = state();
    state.activate();
    let events = &state.storage_handle().system_events;
    assert_eq!(events.len(), 2);
    assert_eq!(events[0].label, "pre-activation");
    assert_eq!(events[1].label, "post-activation");
    state.deactivate();
    assert_eq!(state.storage_handle().system_events.last().unwrap().label, "post-deactivation");
}

#[test]
fn desactivation_datee_de_la_verification() {
    let mut state = state();
    state.activate();
    let status = state.deactivate_at(3661);
    assert_eq!(status.kill_switch_state, "inactive");
    assert_eq!(status.last_verification.as_deref(), Some("01:01:01"));
    assert!(status.last_verification_clean);
}

#[test]
fn desactivation_sans_activation_est_degradee() {
    let mut state = state();
    let status = state.deactivate_at(0);
    assert_eq!(status.kill_switch_state, "degraded");
    assert_eq!(status.last_verification.as_deref(), Some("00:00:00"));
    assert!(!status.last_verification_clean);
}

#[test]
fn arret_d_urgence_coupe_tout() {
    let mut state = state();
    state.activate();
    let status = state.emergency_stop();
    assert_eq!(status.kill_switch_state, "inactive");
    assert!(status.subsystems.iter().all(|s| s.status == "off"));
    assert!(!status.last_verification_clean);
    assert_eq!(state.storage_handle().system_events.last().unwrap().label, "emergency-stop");
}

#[test]
fn erreurs_nft_et_messages() {
    assert!(nft_outcome(true, "").is_ok());
    assert!(nft_outcome(false, "denied").is_err());
    let e = exec_error("capture", "boom");
    assert!(e.message().contains("boom"));
}

#[test]
fn litteral_json_echappe_par_serde_json() {
    let mut out = String::from("x=");
    vitrail::json::push_quoted(&mut out, "a\"b\\c\nd\u{1}");
    assert_eq!(out, "x=\"a\\\"b\\\\c\\nd\\u0001\"");
}
