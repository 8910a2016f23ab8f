use vitrail::commands::log_entries::{
    format_hms, get_log_entries, log_level_for_label, log_message_for_event, to_log_entry,
};
use vitrail::storage::events::{list_system_events, record_system_event, record_system_event_at};
use vitrail::storage::StorageHandle;

#[test]
fn get_log_entries_impl_mappe_label_et_snapshot_reels() {
    let mut storage = StorageHandle::open_in_memory().expect("ouverture en mémoire");
    let snapshot = r#"{"timestamp_unix":1000,"nftables_chain_present":true,"subsystems":[{"name":"capture","active":true},{"name":"decryption","active":false}]}"#;
    record_system_event(&mut storage, "post-activation", snapshot).expect("event réel");
    record_system_event(&mut storage, "emergency-stop", snapshot).expect("event emergency");

    let entries = get_log_entries(&storage);
    assert_eq!(entries.len(), 2, "plus récent en premier");
    assert_eq!(entries[0].subsystem, "killswitch");
    assert_eq!(entries[0].level, "warn", "emergency-stop doit rester visible");
    assert!(entries[0].message.contains("Arrêt d'urgence déclenché"));
    assert!(entries[0].message.contains("1 sous-système"));

    assert_eq!(entries[1].level, "info");
    assert!(entries[1].message.contains("Activation terminée"));
    assert!(entries[1].message.contains("présente"));
}

#[test]
fn get_log_entries_impl_reste_honnete_sur_un_snapshot_illisible() {
    let mut storage = StorageHandle::open_in_memory().expect("ouverture en mémoire");
    record_system_event(&mut storage, "pre-activation", "{}").expect("event legacy/test");

    let entries = get_log_entries(&storage);
    assert_eq!(entries.len(), 1);
    assert_eq!(
        entries[0].message, "Événement système « pre-activation »",
        "un snapshot sans les champs attendus ne doit jamais faire planter le mapping"
    );
}

#[test]
fn heure_formatee_et_niveaux() {
    assert_eq!(format_hms(0), "00:00:00");
    assert_eq!(format_hms(3661), "01:01:01");
    assert_eq!(format_hms(86_399 + 86_400), "23:59:59");
    assert_eq!(format_hms(-5), "00:00:00");
    assert_eq!(log_level_for_label("emergency-stop"), "warn");
    assert_eq!(log_level_for_label("post-activation"), "info");
}

#[test]
fn json_illisible_donne_le_message_generique() {
    assert_eq!(
        log_message_for_event("post-deactivation", &None),
        "Événement système « post-deactivation »"
    );
    let mut storage = StorageHandle::open_in_memory().unwrap();
    record_system_event(&mut storage, "post-deactivation", "pas du json").unwrap();
    assert_eq!(get_log_entries(&storage)[0].message, "Événement système « post-deactivation »");
}

#[test]
fn ligne_du_journal_en_entree_de_log() {
    let mut storage = StorageHandle::open_in_memory().unwrap();
    record_system_event_at(&mut storage, "emergency-stop", "{}", 3600).unwrap();
    let rows = list_system_events(&storage, 10).unwrap();
    assert_eq!(rows.len(), 1);
    let entry = to_log_entry(&rows[0]);
    assert_eq!(entry.time, "01:00:00");
    assert_eq!(entry.level, "warn");
    assert_eq!(entry.subsystem, "killswitch");
}
