use vitrail::attribution::cache::{parse_stat_start_time, ProcessCache};
use vitrail::attribution::connection::{app_name_for, ask_rule, handle_connection, socket_path, DaemonConnection};
use vitrail::attribution::daemon_config::{
    detection_from, reconfigure_daemon, restore_daemon, set_socket_outcome,
    validate_socket_address, FakeDaemonConfigurator,
};
use vitrail::attribution::desktop::{
    applications_dirs_from, basename_of, check_desktop_file, desktop_file_exec_matches,
    file_name_text, find_desktop_file, resolve_app_name, AppNameCache,
};
use vitrail::attribution::{AttributionSubsystem, FakeAttributionServer};
use vitrail::killswitch::{KillSwitchError, Subsystem};
use vitrail::storage::StorageHandle;

#[test]
fn pid_recycle_ne_confond_pas_deux_process() {
    let mut cache = ProcessCache::new();
    cache.insert(1234, 1000, "/usr/bin/firefox".to_string());
    cache.insert(1234, 2000, "/usr/bin/curl".to_string());

    assert_eq!(cache.get(1234, 1000).unwrap().exe_path, "/usr/bin/firefox");
    assert_eq!(cache.get(1234, 2000).unwrap().exe_path, "/usr/bin/curl");
    assert_eq!(cache.len(), 2);
}

#[test]
fn pid_inconnu_retourne_none() {
    let cache = ProcessCache::new();
    assert!(cache.get(9999, 1).is_none());
}

#[test]
fn insert_sur_la_meme_cle_remplace_sans_dupliquer() {
    let mut cache = ProcessCache::new();
    cache.insert(7, 70, "/usr/bin/a".to_string());
    cache.insert(7, 70, "/usr/bin/b".to_string());
    assert_eq!(cache.len(), 1);
    assert_eq!(cache.get(7, 70).unwrap().exe_path, "/usr/bin/b");
}

#[test]
fn start_time_lu_apres_la_parenthese_fermante() {
    // Field 22 of /proc/<pid>/stat, with a command name holding spaces and a parenthesis.
    let stat = "42 (my (odd) proc) S 1 42 42 0 -1 4194560 100 0 0 0 1 2 0 0 20 0 1 0 98765 1000 10";
    assert_eq!(parse_stat_start_time(stat), Some(98765));
    assert_eq!(parse_stat_start_time("42 (x) S 1 2"), None);
    assert_eq!(parse_stat_start_time("pas de parenthese"), None);
}

#[test]
fn valide_une_adresse_unix_absolue() {
    assert!(validate_socket_address("unix:///run/user/1000/vitrail/ui.sock").is_ok());
}

#[test]
fn refuse_une_adresse_sans_prefixe_unix() {
    assert!(validate_socket_address("/tmp/osui.sock").is_err());
    assert!(validate_socket_address("127.0.0.1:50051").is_err());
}

#[test]
fn refuse_un_chemin_relatif_ou_avec_traversal() {
    assert!(validate_socket_address("unix://relative/path").is_err());
    assert!(validate_socket_address("unix:///tmp/../etc/passwd").is_err());
}

#[test]
fn refuse_les_caracteres_shell() {
    assert!(validate_socket_address("unix:///tmp/foo; rm -rf /").is_err());
    assert!(validate_socket_address("unix:///tmp/$(whoami)").is_err());
}

#[test]
fn set_socket_outcome_remonte_stderr() {
    assert!(set_socket_outcome(true, "").is_ok());
    assert!(set_socket_outcome(false, "boom").is_err());
}

#[test]
fn detection_from_conserve_l_adresse_et_le_chemin() {
    let d = detection_from(true, false, Some("unix:///tmp/osui.sock".to_string()), "unix:///v.sock");
    assert!(d.installed);
    assert!(!d.active);
    assert_eq!(d.current_address, Some("unix:///tmp/osui.sock".to_string()));
    assert!(d.points_elsewhere);
    let same = detection_from(true, true, Some("unix:///v.sock".to_string()), "unix:///v.sock");
    assert!(same.active);
    assert!(!same.points_elsewhere);
    let absent = detection_from(false, true, None, "unix:///v.sock");
    assert!(!absent.active);
    assert!(!absent.points_elsewhere);
}

fn attribution_subsystem(
    server: FakeAttributionServer,
    configurator: FakeDaemonConfigurator,
) -> AttributionSubsystem<FakeAttributionServer, FakeDaemonConfigurator> {
    AttributionSubsystem::with_configurator(
        server,
        configurator,
        StorageHandle::open_in_memory().unwrap(),
        "/run/user/1000/vitrail/ui.sock".to_string(),
    )
}

#[test]
fn start_sauvegarde_origine_reconfigure_et_expose_la_detection() {
    let mut subsystem = attribution_subsystem(FakeAttributionServer::new(), FakeDaemonConfigurator::new());

    subsystem.start().expect("start() aurait dû réussir");
    assert!(subsystem.is_active());

    {
        let calls = &subsystem.configurator().set_calls;
        assert_eq!(calls.len(), 1, "set_socket doit être appelé une fois au démarrage");
        assert!(calls[0].starts_with("unix://"), "l'adresse cible doit être le socket Vitrail");
    }

    let detection = subsystem.last_detection().as_ref().expect("détection non conservée");
    assert!(detection.points_elsewhere, "la fake config pointe ailleurs par défaut");

    subsystem.stop().expect("stop() aurait dû réussir");
    assert!(!subsystem.is_active());

    let calls = &subsystem.configurator().set_calls;
    assert_eq!(calls.len(), 2, "set_socket doit aussi être appelé à la restauration");
    assert_eq!(calls[1], "unix:///tmp/osui.sock", "doit restaurer l'adresse d'origine exacte");
}

#[test]
fn stop_remonte_une_erreur_si_la_restauration_echoue_mais_arrete_quand_meme() {
    let mut subsystem = attribution_subsystem(FakeAttributionServer::new(), FakeDaemonConfigurator::new());

    subsystem.start().expect("start() aurait dû réussir");
    subsystem.configurator_mut().fail_set = true;

    let result = subsystem.stop();
    assert!(result.is_err(), "un échec de restauration doit remonter une erreur, jamais un no-op silencieux");
    assert!(!subsystem.is_active(), "le serveur doit être arrêté même si la restauration échoue");
}

#[test]
fn start_vise_le_socket_du_serveur() {
    let mut subsystem = attribution_subsystem(FakeAttributionServer::new(), FakeDaemonConfigurator::new());
    subsystem.start().unwrap();
    assert_eq!(subsystem.configurator().set_calls[0], "unix:///run/user/1000/vitrail/ui.sock");
}

#[test]
fn serveur_qui_ne_demarre_pas_ne_touche_pas_au_daemon() {
    let mut server = FakeAttributionServer::new();
    server.refuse = true;
    let mut subsystem = attribution_subsystem(server, FakeDaemonConfigurator::new());
    let result = subsystem.start();
    match result {
        Err(KillSwitchError::SubsystemExec { subsystem: name, reason }) => {
            assert_eq!(name, "attribution");
            assert_eq!(reason, "socket déjà utilisé");
        }
        other => panic!("erreur d'exécution attendue, obtenu {other:?}"),
    }
    assert!(!subsystem.is_active());
    assert!(subsystem.configurator().set_calls.is_empty());
    assert!(subsystem.last_detection().is_none());
}

#[test]
fn echec_de_reconfiguration_arrete_le_serveur() {
    let mut configurator = FakeDaemonConfigurator::new();
    configurator.fail_set = true;
    let mut subsystem = attribution_subsystem(FakeAttributionServer::new(), configurator);
    assert!(subsystem.start().is_err());
    assert!(!subsystem.is_active());
    assert!(subsystem.last_detection().is_some(), "la détection a eu lieu avant l'échec");
}

#[test]
fn reconfiguration_puis_restauration_du_daemon() {
    let mut storage = StorageHandle::open_in_memory().unwrap();
    let mut configurator = FakeDaemonConfigurator::new();
    let target = "unix:///run/user/1000/vitrail/ui.sock";
    let (detection, outcome) = reconfigure_daemon(&mut configurator, &mut storage, target);
    outcome.expect("la reconfiguration aurait dû réussir");
    assert_eq!(configurator.set_calls, vec![target.to_string()]);
    assert!(detection.points_elsewhere);
    restore_daemon(&mut configurator, &storage).expect("la restauration aurait dû réussir");
    assert_eq!(configurator.set_calls[1], "unix:///tmp/osui.sock");
    configurator.fail_set = true;
    assert!(restore_daemon(&mut configurator, &storage).is_err());
}

#[test]
fn le_cache_du_domaine_apprend_les_connexions_rapportees() {
    let mut subsystem = attribution_subsystem(FakeAttributionServer::new(), FakeDaemonConfigurator::new());
    let names = AppNameCache::new();
    let conn = DaemonConnection {
        pid: 4242,
        exe_path: "/usr/bin/curl".to_string(),
        protocol: "TCP".to_string(),
        src_ip: "10.0.0.2".to_string(),
        src_port: 51000,
        dst_ip: "93.184.216.34".to_string(),
        dst_port: 443,
    };
    let (event, pending) = subsystem.record_connection(&names, &conn, Some(77), 1_000).unwrap();
    assert_eq!(event.app_name, "curl");
    assert!(pending);
    assert_eq!(subsystem.cached_processes(), 1);
    assert!(subsystem.record_connection(&names, &conn, None, 1_001).is_none());
    assert_eq!(subsystem.cached_processes(), 1);
}

#[test]
fn restauration_sans_origine_enregistree_ne_touche_a_rien() {
    let storage = StorageHandle::open_in_memory().unwrap();
    let mut configurator = FakeDaemonConfigurator::new();
    assert!(restore_daemon(&mut configurator, &storage).is_ok());
    assert!(configurator.set_calls.is_empty());
}

#[test]
fn app_name_cache_absent_puis_present_apres_insert() {
    let mut cache = AppNameCache::new();
    assert!(cache.get("/usr/bin/firefox").is_none());
    cache.insert("/usr/bin/firefox".to_string(), "Firefox".to_string());
    assert_eq!(cache.get("/usr/bin/firefox").unwrap(), "Firefox");
}

#[test]
fn basename_et_nom_de_fichier() {
    assert_eq!(basename_of("/usr/bin/totally-unknown-binary"), "totally-unknown-binary");
    assert_eq!(file_name_text("/usr/lib/firefox/firefox"), Some("firefox".to_string()));
}

#[test]
fn desktop_exec_matchant_donne_le_nom() {
    let content = "[Desktop Entry]\nName=Firefox\nExec=firefox %u\n";
    assert!(desktop_file_exec_matches(content, "firefox"));
    assert!(!desktop_file_exec_matches(content, "curl"));
    assert_eq!(check_desktop_file(content, "firefox"), Some("Firefox".to_string()));
    assert_eq!(check_desktop_file(content, "curl"), None);
}

#[test]
fn dossiers_applications_depuis_xdg() {
    let dirs = applications_dirs_from(Some("/a:/b"), Some("/home/u/.local/share"));
    assert_eq!(
        dirs,
        vec![
            "/home/u/.local/share/applications".to_string(),
            "/a/applications".to_string(),
            "/b/applications".to_string(),
        ]
    );
}

const FIREFOX_DESKTOP: &str = "[Desktop Entry]\nName=Firefox\nExec=firefox %u\n";

#[test]
fn fallback_sur_basename_si_aucun_desktop_ne_matche() {
    assert_eq!(resolve_app_name("/usr/bin/totally-unknown-binary", &vec![]), "totally-unknown-binary");
    assert_eq!(
        resolve_app_name("/usr/bin/totally-unknown-binary", &vec![FIREFOX_DESKTOP.to_string()]),
        "totally-unknown-binary"
    );
}

#[test]
fn trouve_le_nom_via_exec_matchant() {
    let contents = vec!["[Desktop Entry]\nName=Other\nExec=other\n".to_string(), FIREFOX_DESKTOP.to_string()];
    assert_eq!(resolve_app_name("/usr/lib/firefox/firefox", &contents), "Firefox");
}

#[test]
fn find_desktop_file_retourne_le_chemin_complet_du_fichier_matchant() {
    let entries = vec![(
        "/tmp/data/applications/firefox.desktop".to_string(),
        FIREFOX_DESKTOP.to_string(),
    )];
    assert_eq!(
        find_desktop_file("/usr/lib/firefox/firefox", &entries),
        Some("/tmp/data/applications/firefox.desktop".to_string())
    );
    assert_eq!(find_desktop_file("/usr/bin/totally-unknown", &entries), None);
}

fn connection(pid: u32, exe: &str) -> DaemonConnection {
    DaemonConnection {
        pid,
        exe_path: exe.to_string(),
        protocol: "TCP".to_string(),
        src_ip: "192.168.1.42".to_string(),
        src_port: 51000,
        dst_ip: "1.2.3.4".to_string(),
        dst_port: 443,
    }
}

#[test]
fn connexion_attribuee_met_a_jour_le_cache_et_publie() {
    let mut cache = ProcessCache::new();
    let mut names = AppNameCache::new();
    let (event, pending) =
        handle_connection(&mut cache, &names, &connection(42, "/usr/bin/firefox"), Some(777), 5).unwrap();
    assert_eq!(cache.get(42, 777).unwrap().exe_path, "/usr/bin/firefox");
    assert_eq!(event.app_name, "firefox", "nom provisoire sans I/O disque");
    assert!(pending);
    let tuple = event.five_tuple.unwrap();
    assert_eq!(tuple.protocol, "tcp");
    assert_eq!(tuple.dst_port, 443);
    assert_eq!(event.timestamp_unix_ms, 5);

    names.insert("/usr/bin/firefox".to_string(), "Firefox".to_string());
    let (event, pending) =
        handle_connection(&mut cache, &names, &connection(42, "/usr/bin/firefox"), Some(777), 6).unwrap();
    assert_eq!(event.app_name, "Firefox");
    assert!(!pending);
    assert_eq!(cache.len(), 1);
}

#[test]
fn connexion_inexploitable_ignoree() {
    let mut cache = ProcessCache::new();
    let names = AppNameCache::new();
    assert!(handle_connection(&mut cache, &names, &connection(0, "/usr/bin/x"), Some(1), 0).is_none());
    assert!(handle_connection(&mut cache, &names, &connection(3, ""), Some(1), 0).is_none());
    assert!(handle_connection(&mut cache, &names, &connection(3, "/usr/bin/x"), None, 0).is_none());
    assert_eq!(cache.len(), 0);
}

#[test]
fn nom_d_app_depuis_le_cache_ou_provisoire() {
    let mut names = AppNameCache::new();
    assert_eq!(app_name_for(&names, "/opt/app/bin/tool"), ("tool".to_string(), true));
    names.insert("/opt/app/bin/tool".to_string(), "Tool".to_string());
    assert_eq!(app_name_for(&names, "/opt/app/bin/tool"), ("Tool".to_string(), false));
}

#[test]
fn chemin_du_socket_d_attribution() {
    assert_eq!(socket_path(Some("/run/user/1000"), 1000), "/run/user/1000/vitrail/ui.sock");
    assert_eq!(socket_path(None, 1000), "/tmp/vitrail-runtime-1000/vitrail/ui.sock");
}

#[test]
fn eviction_des_processus_disparus() {
    let mut cache = ProcessCache::new();
    cache.insert(1, 10, "/sbin/init".to_string());
    cache.insert(999_999_999, 20, "/usr/bin/gone".to_string());
    cache.evict_dead();
    assert_eq!(cache.len(), 1);
    assert!(cache.get(1, 10).is_some());
    assert!(cache.get(999_999_999, 20).is_none());
}

#[test]
fn ask_rule_decode_en_attribution_event_et_met_a_jour_le_cache() {
    let mut cache = ProcessCache::new();
    let names = AppNameCache::new();
    let own_pid: u32 = 4242;
    let start_time = 123_456u64;
    let conn = DaemonConnection {
        pid: own_pid,
        exe_path: "/usr/bin/vitrail-test-fixture".to_string(),
        protocol: "tcp".to_string(),
        src_ip: "192.168.1.42".to_string(),
        src_port: 51000,
        dst_ip: "93.184.216.34".to_string(),
        dst_port: 443,
    };
    let (rule, attribution) = ask_rule(&mut cache, &names, &conn, Some(start_time), 1_000);
    assert_eq!(rule.action, "allow", "Vitrail ne doit jamais bloquer");
    assert_eq!(rule.duration, "once", "jamais de règle persistante côté daemon");
    assert!(attribution.is_some());
    let entry = cache.get(own_pid, start_time).expect("le cache pid→exe n'a pas été mis à jour par AskRule");
    assert_eq!(entry.exe_path, "/usr/bin/vitrail-test-fixture");

    let (rule, attribution) = ask_rule(&mut cache, &names, &conn, None, 1_001);
    assert_eq!(rule.action, "allow", "même un process disparu est autorisé");
    assert!(attribution.is_none());
}
