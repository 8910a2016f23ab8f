use vitrail::keylog::detection::{capturable_interfaces, interpret_dash_d};
use vitrail::keylog::fragment::{truncate_utf8, BODY_PREVIEW_MAX_BYTES};
use vitrail::keylog::injection::{
    inject_app, inject_apps, keylog_path, restore_app, restore_apps, rewrite_exec_lines, shell_quote, wrapper_content,
    wrapper_path, InjectionOutcome,
};
use vitrail::keylog::desktop_store::{DesktopStore, MemFiles};
use vitrail::keylog::tshark::start_tshark;
use vitrail::keylog::{parse_ek_line, restore_app_injection, FakeTsharkBackend, TsharkHandle, TsharkReader};
use vitrail::killswitch::KillSwitchError;
use vitrail::storage::keylog::{add_app, list_apps};
use vitrail::storage::{KeylogAppRow, StorageHandle};

#[test]
fn dash_d_reussi_avec_interfaces_donne_can_capture() {
    let availability = interpret_dash_d(true, "1. wlan0\n2. lo (Loopback)\n3. any\n4. wg0\n", "");
    assert!(availability.installed);
    assert!(availability.can_capture);
    assert_eq!(availability.interfaces, vec!["1", "4"]);
    assert!(availability.reason.is_none());
}

#[test]
fn dash_d_sans_interface_capturable_donne_degrade() {
    let availability = interpret_dash_d(true, "1. lo (Loopback)\n2. any\n", "");
    assert!(availability.installed);
    assert!(!availability.can_capture);
    assert!(availability.interfaces.is_empty());
    assert!(availability.reason.is_some());
}

#[test]
fn dash_d_en_echec_donne_degrade_avec_stderr_dans_la_raison() {
    let availability = interpret_dash_d(false, "", "permission denied");
    assert!(availability.installed);
    assert!(!availability.can_capture);
    assert!(availability.reason.unwrap().contains("permission denied"));
}

#[test]
fn sortie_vide_donne_degrade() {
    let availability = interpret_dash_d(true, "", "");
    assert!(!availability.can_capture);
    assert!(availability.interfaces.is_empty());
}

#[test]
fn interfaces_capturables_sans_loopback_ni_any() {
    assert_eq!(
        capturable_interfaces("1. eth0\n2. lo (Loopback)\n3. ANY\n5. wlp3s0 (Wi-Fi)\n"),
        vec!["1", "5"]
    );
}

fn http_doc_line() -> String {
    r#"{"timestamp":"1720000000000","layers":{
        "ip_ip_src":"192.168.1.42","ip_ip_dst":"93.184.216.34",
        "tcp_tcp_srcport":"51000","tcp_tcp_dstport":"443",
        "http_http_host":"example.com","http_http_request_method":"GET",
        "http_http_request_uri":"/api/ping","http_http_response_code":"200",
        "http_http_content_type":"application/json",
        "http_http_request_line":["User-Agent: curl/8.0","Host: example.com"],
        "http_http_response_line":["Content-Type: application/json"],
        "http_http_file_data":"{\"ok\":true}"
    }}"#
    .to_string()
}

#[test]
fn ignore_la_ligne_index_elasticsearch_bulk() {
    assert!(parse_ek_line(r#"{"index":{}}"#).is_none());
}

#[test]
fn ignore_une_ligne_vide_ou_malformee_sans_paniquer() {
    assert!(parse_ek_line("").is_none());
    assert!(parse_ek_line("pas du json").is_none());
    assert!(parse_ek_line(r#"{"layers": "pas un objet attendu ici"}"#).is_none());
}

#[test]
fn parse_un_fragment_http_complet() {
    let fragment = parse_ek_line(&http_doc_line()).expect("doit parser la fixture HTTP");
    assert_eq!(fragment.five_tuple.protocol, "tcp");
    assert_eq!(fragment.five_tuple.src_port, 51000);
    assert_eq!(fragment.five_tuple.dst_port, 443);
    assert_eq!(fragment.host.as_deref(), Some("example.com"));
    assert_eq!(fragment.method.as_deref(), Some("GET"));
    assert_eq!(fragment.path.as_deref(), Some("/api/ping"));
    assert_eq!(fragment.status, Some(200));
    assert_eq!(fragment.content_type.as_deref(), Some("application/json"));
    assert_eq!(fragment.request_headers.len(), 2);
    assert_eq!(fragment.request_headers[0].name, "User-Agent");
    assert_eq!(fragment.body_preview.as_deref(), Some("{\"ok\":true}"));
    assert!(fragment.certificate.is_none(), "aucun champ certificat dans la fixture");
}

#[test]
fn sans_cinq_tuple_exploitable_renvoie_none() {
    let line = r#"{"layers":{"http_http_host":"example.com"}}"#;
    assert!(parse_ek_line(line).is_none());
}

#[test]
fn tronque_le_body_preview_a_2000_octets_sans_couper_un_caractere_utf8() {
    let long_body = "é".repeat(1500);
    let truncated = truncate_utf8(&long_body, BODY_PREVIEW_MAX_BYTES);
    assert!(truncated.len() <= BODY_PREVIEW_MAX_BYTES);
    assert!(std::str::from_utf8(truncated.as_bytes()).is_ok());
}

#[test]
fn troncature_exacte_au_caractere_pres() {
    assert_eq!(truncate_utf8("aéb", 2), "a");
    assert_eq!(truncate_utf8("aéb", 3), "aé");
    assert_eq!(truncate_utf8("court", 100), "court");
    assert_eq!(truncate_utf8(&"é".repeat(1500), BODY_PREVIEW_MAX_BYTES).len(), 2000);
}

#[test]
fn start_sans_tshark_disponible_reste_actif_en_degrade() {
    let mut backend = FakeTsharkBackend::unavailable();
    let started = start_tshark(&mut backend, "/tmp/keys.log").expect("start() doit réussir même sans tshark (dégradé)");
    assert!(started.is_none());
}

#[test]
fn start_avec_tshark_publie_un_fragment_decrypte_vers_correlation() {
    let mut backend = FakeTsharkBackend::available(vec![
        r#"{"index":{}}"#.to_string(),
        http_doc_line().replace('\n', " "),
    ]);
    let spawned = start_tshark(&mut backend, "/tmp/keys.log").expect("start() doit réussir");
    let mut spawned = spawned.expect("tshark lancé");
    let mut fragments = Vec::new();
    while let Some(line) = spawned.reader.next_line() {
        if let Some(fragment) = parse_ek_line(&line) {
            fragments.push(fragment);
        }
    }
    assert_eq!(fragments.len(), 1, "un événement de corrélation doit être publié");
    assert_eq!(fragments[0].host.as_deref(), Some("example.com"));
    assert_eq!(fragments[0].five_tuple.protocol, "tcp");
    spawned.handle.stop();
}

#[test]
fn start_avec_echec_de_spawn_malgre_detection_positive_remonte_une_erreur() {
    let mut backend = FakeTsharkBackend::available(Vec::new());
    backend.fail_spawn = true;
    let result = start_tshark(&mut backend, "/tmp/keys.log");
    match result {
        Err(KillSwitchError::SubsystemExec { subsystem, .. }) => assert_eq!(subsystem, "keylog"),
        _ => panic!("un échec de spawn malgré détection positive doit remonter"),
    }
}

#[test]
fn chemins_et_wrapper() {
    assert_eq!(keylog_path(Some("/x"), None), "/x/vitrail/tls_keylog.log");
    assert_eq!(wrapper_path(None, Some("/home/u")), "/home/u/.local/share/vitrail/keylog-wrapper.sh");
    assert_eq!(shell_quote("a'b"), "'a'\\''b'");
    assert_eq!(
        wrapper_content("/k/keys.log"),
        "#!/bin/sh\nexport SSLKEYLOGFILE='/k/keys.log'\nexec \"$@\"\n"
    );
}

/// The in-memory files with a system entry for `binary` at `path`.
fn with_system_desktop(binary: &str, path: &str) -> MemFiles {
    let mut f = MemFiles::new();
    f.put_file(path, "[Desktop Entry]\nName=Firefox\nExec=firefox %u\n");
    f.put_entry(binary, path);
    f
}

fn row(binary_path: &str) -> KeylogAppRow {
    KeylogAppRow { binary_path: binary_path.to_string(), desktop_path: None, backup_path: None }
}

const DATA: &str = "/base/data";
const WRAPPER: &str = "/base/wrapper.sh";

#[test]
fn inject_puis_restore_sans_surcharge_preexistante_supprime_l_override() {
    let mut files =
        with_system_desktop("/usr/lib/firefox/firefox", "/base/system/applications/firefox.desktop");
    let mut storage = StorageHandle::open_in_memory().unwrap();
    let app = row("/usr/lib/firefox/firefox");
    add_app(&mut storage, &app.binary_path).unwrap();

    let outcome = inject_app(&mut storage, &app, WRAPPER, &mut files, Some(DATA), None);
    let InjectionOutcome::Injected { desktop_path, backup_path } = outcome else {
        panic!("injection attendue");
    };
    assert!(backup_path.is_none(), "aucune surcharge préexistante à sauvegarder");
    assert_eq!(desktop_path, "/base/data/applications/firefox.desktop");
    let content = files.read_to_string(&desktop_path).unwrap();
    assert!(content.contains(&format!("Exec={}", WRAPPER)));

    let persisted = list_apps(&storage).unwrap();
    assert_eq!(persisted[0].desktop_path.as_deref(), Some(desktop_path.as_str()));

    assert!(restore_app(&mut storage, &persisted[0], &mut files));
    assert!(!files.path_exists(&desktop_path), "override créé par Vitrail doit être supprimé");
    let cleared = list_apps(&storage).unwrap();
    assert_eq!(cleared[0].desktop_path, None);
}

#[test]
fn inject_sauvegarde_une_surcharge_preexistante_et_la_restaure_exactement() {
    let mut files =
        with_system_desktop("/usr/lib/firefox/firefox", "/base/system/applications/firefox.desktop");
    let override_path = "/base/data/applications/firefox.desktop";
    let original_content = "[Desktop Entry]\nName=Firefox (perso)\nExec=firefox --private\n";
    files.put_file(override_path, original_content);

    let mut storage = StorageHandle::open_in_memory().unwrap();
    let app = row("/usr/lib/firefox/firefox");
    add_app(&mut storage, &app.binary_path).unwrap();

    let outcome = inject_app(&mut storage, &app, WRAPPER, &mut files, Some(DATA), None);
    let InjectionOutcome::Injected { backup_path, .. } = outcome else {
        panic!("injection attendue");
    };
    assert!(backup_path.is_some(), "la surcharge préexistante doit être sauvegardée");

    let persisted = list_apps(&storage).unwrap();
    restore_app(&mut storage, &persisted[0], &mut files);
    assert_eq!(
        files.read_to_string(override_path).unwrap(),
        original_content,
        "le contenu original doit être restauré exactement"
    );
}

#[test]
fn inject_sans_desktop_resolvable_renvoie_no_desktop_file() {
    let mut files = MemFiles::new();
    let mut storage = StorageHandle::open_in_memory().unwrap();
    let app = row("/usr/bin/totally-unknown-binary");
    assert!(matches!(
        inject_app(&mut storage, &app, WRAPPER, &mut files, Some(DATA), None),
        InjectionOutcome::NoDesktopFile
    ));
}

#[test]
fn inject_deux_fois_de_suite_sans_restore_est_ignore() {
    let mut files =
        with_system_desktop("/usr/lib/firefox/firefox", "/base/system/applications/firefox.desktop");
    let mut storage = StorageHandle::open_in_memory().unwrap();
    let app = row("/usr/lib/firefox/firefox");
    add_app(&mut storage, &app.binary_path).unwrap();

    inject_app(&mut storage, &app, WRAPPER, &mut files, Some(DATA), None);
    let already_injected = list_apps(&storage).unwrap().remove(0);
    assert!(matches!(
        inject_app(&mut storage, &already_injected, WRAPPER, &mut files, Some(DATA), None),
        InjectionOutcome::AlreadyInjected
    ));
}

#[test]
fn reecriture_des_lignes_exec() {
    let rewritten = rewrite_exec_lines("[Desktop Entry]\nName=Firefox\nExec=firefox %u\n", "/w.sh");
    assert_eq!(rewritten, "[Desktop Entry]\nName=Firefox\nExec=/w.sh firefox %u\n");
}

#[test]
fn retrait_d_une_app_injectee_restaure_d_abord_son_override() {
    let mut files =
        with_system_desktop("/usr/lib/firefox/firefox", "/base/system/applications/firefox.desktop");
    let mut storage = StorageHandle::open_in_memory().unwrap();
    add_app(&mut storage, "/usr/lib/firefox/firefox").unwrap();
    add_app(&mut storage, "/usr/bin/curl").unwrap();
    inject_app(&mut storage, &row("/usr/lib/firefox/firefox"), WRAPPER, &mut files, Some(DATA), None);
    assert!(files.path_exists("/base/data/applications/firefox.desktop"));

    restore_app_injection(&mut storage, "/usr/bin/curl", &mut files);
    assert!(files.path_exists("/base/data/applications/firefox.desktop"));

    restore_app_injection(&mut storage, "/usr/lib/firefox/firefox", &mut files);
    assert!(!files.path_exists("/base/data/applications/firefox.desktop"));
    assert_eq!(list_apps(&storage).unwrap()[0].desktop_path, None);
}

#[test]
fn injection_et_restauration_de_toutes_les_apps() {
    let mut files =
        with_system_desktop("/usr/lib/firefox/firefox", "/base/system/applications/firefox.desktop");
    let mut storage = StorageHandle::open_in_memory().unwrap();
    add_app(&mut storage, "/usr/lib/firefox/firefox").unwrap();
    add_app(&mut storage, "/usr/bin/unknown").unwrap();
    let outcomes = inject_apps(&mut storage, WRAPPER, &mut files, Some(DATA), None);
    assert_eq!(outcomes.len(), 2);
    assert!(matches!(outcomes[0], InjectionOutcome::Injected { .. }));
    assert!(matches!(outcomes[1], InjectionOutcome::NoDesktopFile));
    let again = inject_apps(&mut storage, WRAPPER, &mut files, Some(DATA), None);
    assert!(matches!(again[0], InjectionOutcome::AlreadyInjected));

    restore_apps(&mut storage, &mut files);
    assert!(!files.path_exists("/base/data/applications/firefox.desktop"));
    assert!(list_apps(&storage).unwrap().iter().all(|a| a.desktop_path.is_none()));
}
