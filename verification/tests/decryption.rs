use vitrail::attribution::FiveTuple;
use vitrail::decryption::ca::{
    ca_dir, ca_needs_generation, ca_params, fingerprint_der, CaKind, PathLen, generate_and_install, generate_ca, install_and_record,
    remove_recorded_ca, rotate_ca, CaFiles, CaSubsystem, LoggedCaFiles,
};
use vitrail::killswitch::Subsystem;
use vitrail::decryption::exclusions::{LoggedResolver, StaticResolver, KIND_DESTINATION, KIND_PROCESS};
use vitrail::decryption::helper_backend::{
    clear_redirect_with_retry, AbnormalExitGuard, handle_proxy_exit, helper_outcome, validate_redirect_port,
    ABNORMAL_EXIT_CLEAR_MAX_ATTEMPTS,
};
use vitrail::decryption::output::{
    handle_flowlog_line, handle_flowlog_line_at, parse_flowlog_line, record_flowlog_entry_at, split_host_port,
    SeenFragments,
};
use vitrail::decryption::polarproxy::{
    availability_from_help, confirm_then_redirect, listen_port, polarproxy_args, stop_in_order,
    try_start_polarproxy, FakePolarProxyBackend, FakeProxyController, PolarProxyConfig,
    DEFAULT_LISTEN_PORT,
};
use vitrail::decryption::{add_exclusion, list_exclusions, remove_exclusion, FakeHelperBackend, HelperBackend};
use vitrail::storage::decryption::save_ca;
use vitrail::storage::{CaMetadata, StorageHandle};

fn no_dns() -> LoggedResolver<StaticResolver> {
    LoggedResolver::new(StaticResolver { answers: vec![] })
}

#[test]
fn add_exclusion_processus_persiste_sans_toucher_nftables() {
    let mut storage = StorageHandle::open_in_memory().unwrap();
    let mut helper = FakeHelperBackend::new();

    add_exclusion(&mut storage, &mut helper, &mut no_dns(), "firefox", KIND_PROCESS).unwrap();

    assert_eq!(list_exclusions(&storage).len(), 1);
    assert!(
        helper.redirect_calls().is_empty(),
        "une exclusion processus ne doit jamais toucher nftables"
    );
}

#[test]
fn remove_exclusion_absente_est_un_no_op() {
    let mut storage = StorageHandle::open_in_memory().unwrap();
    let mut helper = FakeHelperBackend::new();
    assert!(remove_exclusion(&mut storage, &mut helper, &mut no_dns(), "inconnue").is_ok());
}

#[test]
fn exclusion_destination_puis_retrait() {
    let mut storage = StorageHandle::open_in_memory().unwrap();
    let mut helper = FakeHelperBackend::new();
    let mut resolver = LoggedResolver::new(StaticResolver {
        answers: vec![("bank.example".to_string(), vec!["10.1.2.3".to_string()])],
    });
    add_exclusion(&mut storage, &mut helper, &mut resolver, "bank.example", KIND_DESTINATION).unwrap();
    add_exclusion(&mut storage, &mut helper, &mut resolver, "bank.example", KIND_DESTINATION).unwrap();
    assert_eq!(list_exclusions(&storage).len(), 1);
    remove_exclusion(&mut storage, &mut helper, &mut resolver, "bank.example").unwrap();
    assert!(list_exclusions(&storage).is_empty());
    assert!(!helper.is_redirected());
}

#[test]
fn validate_redirect_port_refuse_les_ports_privilegies() {
    assert!(validate_redirect_port(80).is_err());
    assert!(validate_redirect_port(443).is_err());
    assert!(validate_redirect_port(1024).is_err());
    assert!(validate_redirect_port(1025).is_ok());
    assert!(validate_redirect_port(10443).is_ok());
}

#[test]
fn issue_du_helper() {
    assert!(helper_outcome(true, "").is_ok());
    let e = helper_outcome(false, "pkexec refusé").unwrap_err();
    assert!(e.contains("pkexec refusé"));
}

#[test]
fn parse_flowlog_line_extrait_le_motif_minimal() {
    let line = "1720000000 tcp 10.0.0.5:51000 93.184.216.34:443 example.com abcd1234";
    let entry = parse_flowlog_line(line).expect("ligne valide attendue");
    assert_eq!(entry.five_tuple.protocol, "tcp");
    assert_eq!(entry.five_tuple.src_port, 51000);
    assert_eq!(entry.five_tuple.dst_port, 443);
    assert_eq!(entry.host.as_deref(), Some("example.com"));
}

#[test]
fn parse_flowlog_line_ignore_une_ligne_trop_courte() {
    assert!(parse_flowlog_line("motif incomplet").is_none());
}

#[test]
fn parse_flowlog_line_ignore_un_host_marque_absent() {
    let line = "1720000000 tcp 10.0.0.5:51000 93.184.216.34:443 - abcd1234";
    let entry = parse_flowlog_line(line).expect("ligne valide attendue");
    assert_eq!(entry.host, None);
}

#[test]
fn hote_et_port_coupes_au_dernier_deux_points() {
    assert_eq!(split_host_port("10.0.0.5:51000"), Some(("10.0.0.5".to_string(), 51000)));
    assert_eq!(split_host_port("::1:443"), Some(("::1".to_string(), 443)));
    assert_eq!(split_host_port("pas-de-port"), None);
    assert_eq!(split_host_port("h:99999"), None);
}

fn tuple() -> FiveTuple {
    FiveTuple {
        protocol: "tcp".to_string(),
        src_ip: "10.0.0.5".to_string(),
        src_port: 51000,
        dst_ip: "93.184.216.34".to_string(),
        dst_port: 443,
    }
}

#[test]
fn mark_seen_puis_lookup_reconnait_le_meme_cinq_tuple() {
    let mut seen = SeenFragments::new();
    let five_tuple = tuple();
    seen.mark_seen(&five_tuple);
    assert!(seen.contains(&five_tuple));
}

#[test]
fn un_fragment_oublie_apres_la_retention() {
    let mut seen = SeenFragments::new();
    seen.mark_seen_at(&tuple(), 1_000);
    let mut other = tuple();
    other.src_port = 51001;
    seen.mark_seen_at(&other, 1_000 + 60_001);
    assert!(!seen.contains(&tuple()));
    assert!(seen.contains(&other));
}

#[test]
fn session_sans_fragment_vu_est_un_signal_de_pinning() {
    let mut storage = StorageHandle::open_in_memory().unwrap();
    let mut seen = SeenFragments::new();
    let line = "1720000000 tcp 10.0.0.5:51000 93.184.216.34:443 example.com abcd1234";
    assert!(handle_flowlog_line_at(line, &mut storage, &seen, 1_720_000_010));
    assert_eq!(storage.pinning_events.len(), 1);
    assert_eq!(storage.pinning_events[0].host.as_deref(), Some("example.com"));
    seen.mark_seen_at(&tuple(), 5);
    assert!(!handle_flowlog_line_at(line, &mut storage, &seen, 1_720_000_011));
    assert_eq!(storage.pinning_events.len(), 1);
    assert!(!handle_flowlog_line_at("motif incomplet", &mut storage, &seen, 0));
}

#[test]
fn session_analysee_enregistree_comme_signal_de_pinning() {
    let mut storage = StorageHandle::open_in_memory().unwrap();
    let mut seen = SeenFragments::new();
    let line = "1720000000 TCP 10.0.0.5:51000 93.184.216.34:443 - abcd1234";
    let entry = parse_flowlog_line(line).unwrap();
    assert!(record_flowlog_entry_at(entry, &mut storage, &seen, 42));
    let event = &storage.pinning_events[0];
    assert_eq!(event.timestamp_unix, 42);
    assert_eq!(event.protocol, "tcp");
    assert_eq!(event.src_ip, "10.0.0.5");
    assert_eq!(event.dst_port, 443);
    assert!(event.host.is_none());
    seen.mark_seen_at(&tuple(), 5);
    let entry = parse_flowlog_line(line).unwrap();
    assert!(!record_flowlog_entry_at(entry, &mut storage, &seen, 43));
    assert_eq!(storage.pinning_events.len(), 1);
}

#[test]
fn garde_fou_retire_la_redirection_si_polarproxy_meurt_anormalement() {
    let mut helper = FakeHelperBackend::new();
    helper.nft_redirect(DEFAULT_LISTEN_PORT).unwrap();
    assert_eq!(helper.redirect_calls().len(), 1, "la redirection doit être active avant la simulation de crash");
    assert_eq!(helper.clear_redirect_calls(), 0);
    let mut active = true;

    handle_proxy_exit(false, &mut active, &mut helper).unwrap();
    assert_eq!(helper.clear_redirect_calls(), 1);
    assert!(!helper.is_redirected());
    assert!(!active);
}

#[test]
fn garde_fou_reessaie_nft_clear_redirect_apres_un_echec_transitoire() {
    let mut helper = FakeHelperBackend::new();
    helper.nft_redirect(DEFAULT_LISTEN_PORT).unwrap();
    helper.fail_clear_redirect_times(2);
    let mut active = true;
    assert!(handle_proxy_exit(false, &mut active, &mut helper).is_ok());
    assert_eq!(helper.clear_redirect_calls(), 3);
    assert!(!active, "is_active() doit refléter l'arrêt même après des tentatives retentées");
}

#[test]
fn garde_fou_marque_inactif_meme_si_toutes_les_tentatives_echouent() {
    let mut helper = FakeHelperBackend::new();
    helper.nft_redirect(DEFAULT_LISTEN_PORT).unwrap();
    helper.fail_clear_redirect_times(usize::MAX);
    let mut active = true;
    assert!(handle_proxy_exit(false, &mut active, &mut helper).is_err());
    assert_eq!(
        helper.clear_redirect_calls(),
        ABNORMAL_EXIT_CLEAR_MAX_ATTEMPTS as usize,
        "le garde-fou doit épuiser exactement ABNORMAL_EXIT_CLEAR_MAX_ATTEMPTS tentatives"
    );
    assert!(!active);
}

#[test]
fn arret_demande_ne_declenche_pas_le_garde_fou() {
    let mut helper = FakeHelperBackend::new();
    helper.nft_redirect(DEFAULT_LISTEN_PORT).unwrap();
    let mut active = true;
    assert!(handle_proxy_exit(true, &mut active, &mut helper).is_ok());
    assert_eq!(helper.clear_redirect_calls(), 0);
    assert!(active);
    assert!(clear_redirect_with_retry(&mut helper).is_ok());
    assert!(!helper.is_redirected());
}

fn storage_with_ca() -> StorageHandle {
    let mut storage = StorageHandle::open_in_memory().unwrap();
    save_ca(
        &mut storage,
        &CaMetadata {
            cert_path: "/tmp/vitrail-test-ca.pem".to_string(),
            key_path: "/tmp/vitrail-test-ca.key".to_string(),
            fingerprint_sha256: "a".repeat(64),
        },
    )
    .unwrap();
    storage
}

const FLOWLOG: &str = "/tmp/polarproxy-flow.log";

#[test]
fn start_sans_ca_connue_reste_actif_en_degrade_sans_jamais_rediriger() {
    let storage = StorageHandle::open_in_memory().unwrap();
    let mut helper = FakeHelperBackend::new();
    let mut backend = FakePolarProxyBackend::new(true, true);
    let started = try_start_polarproxy(&mut backend, &storage, &mut helper, DEFAULT_LISTEN_PORT, FLOWLOG)
        .expect("start() doit réussir même sans CA (dégradé)");
    assert!(started.is_none());
    assert_eq!(helper.redirect_calls().len(), 0, "aucune redirection sans CA");
    assert!(backend.spawned.is_empty());
}

#[test]
fn start_sans_polarproxy_installe_reste_actif_en_degrade_sans_jamais_rediriger() {
    let storage = storage_with_ca();
    let mut helper = FakeHelperBackend::new();
    let mut backend = FakePolarProxyBackend::new(false, false);
    let started = try_start_polarproxy(&mut backend, &storage, &mut helper, DEFAULT_LISTEN_PORT, FLOWLOG)
        .expect("start() doit réussir même sans PolarProxy installé (dégradé)");
    assert!(started.is_none());
    assert_eq!(helper.redirect_calls().len(), 0, "aucune redirection possible sans PolarProxy installé");
}

#[test]
fn start_sans_confirmation_d_ecoute_ne_redirige_jamais() {
    let storage = storage_with_ca();
    let mut helper = FakeHelperBackend::new();
    let mut backend = FakePolarProxyBackend::new(true, false);
    let result = try_start_polarproxy(&mut backend, &storage, &mut helper, DEFAULT_LISTEN_PORT, FLOWLOG);
    assert!(result.is_err(), "un échec de confirmation d'écoute doit remonter une erreur");
    assert_eq!(
        helper.redirect_calls().len(),
        0,
        "GARDE-FOU: jamais de redirection sans confirmation d'écoute réelle"
    );
}

#[test]
fn echec_de_lancement_remonte_une_erreur_sans_rediriger() {
    let storage = storage_with_ca();
    let mut helper = FakeHelperBackend::new();
    let mut backend = FakePolarProxyBackend::new(true, true);
    backend.fail_spawn = true;
    assert!(try_start_polarproxy(&mut backend, &storage, &mut helper, DEFAULT_LISTEN_PORT, FLOWLOG).is_err());
    assert!(helper.redirect_calls().is_empty());
}

#[test]
fn start_confirme_applique_la_redirection_puis_stop_la_retire_dans_le_bon_ordre() {
    let storage = storage_with_ca();
    let mut helper = FakeHelperBackend::new();
    let mut backend = FakePolarProxyBackend::new(true, true);
    let started = try_start_polarproxy(&mut backend, &storage, &mut helper, DEFAULT_LISTEN_PORT, FLOWLOG)
        .expect("start() doit réussir");
    let mut running = started.expect("PolarProxy lancé");
    assert_eq!(helper.redirect_calls(), vec![DEFAULT_LISTEN_PORT]);
    assert_eq!(helper.clear_redirect_calls(), 0);
    assert_eq!(backend.spawned[0].ca_cert_path, "/tmp/vitrail-test-ca.pem");
    assert_eq!(backend.spawned[0].flowlog_path, FLOWLOG);

    stop_in_order(&mut running.controller, &mut helper).expect("stop() doit réussir");
    assert_eq!(helper.clear_redirect_calls(), 1, "stop() doit retirer la redirection appliquée par start()");
    assert!(running.controller.stop_requested);
    assert!(!helper.is_redirected());
}

#[test]
fn controleur_non_confirme_est_arrete() {
    let mut helper = FakeHelperBackend::new();
    let mut proxy = FakeProxyController::new(false);
    assert!(confirm_then_redirect(&mut proxy, &mut helper, DEFAULT_LISTEN_PORT).is_err());
    assert!(proxy.stop_requested);
    assert!(helper.redirect_calls().is_empty());
}

#[test]
fn garde_fou_arme_apres_un_arret_demande_ne_fait_rien() {
    let mut helper = FakeHelperBackend::new();
    helper.nft_redirect(DEFAULT_LISTEN_PORT).unwrap();
    let mut guard = AbnormalExitGuard::armed();
    guard.clean_shutdown = true;
    assert!(guard.on_exit(&mut helper).is_ok());
    assert!(guard.active);
    assert_eq!(helper.clear_redirect_calls(), 0);
    let mut guard = AbnormalExitGuard::armed();
    assert!(guard.on_exit(&mut helper).is_ok());
    assert!(!guard.active);
    assert!(!helper.is_redirected());
}

#[test]
fn port_d_ecoute_et_ligne_de_commande() {
    assert_eq!(listen_port(None), DEFAULT_LISTEN_PORT);
    assert_eq!(listen_port(Some("12000")), 12000);
    assert_eq!(listen_port(Some("pas un port")), DEFAULT_LISTEN_PORT);
    let config = PolarProxyConfig {
        ca_cert_path: "/tmp/ca.pem".to_string(),
        ca_key_path: "/tmp/ca.key".to_string(),
        listen_port: 10443,
        decrypted_port: 10080,
        pcapoverip_port: 10444,
        flowlog_path: "/tmp/flows.log".to_string(),
    };
    let args = polarproxy_args(&config, "/tmp/ca.p12", "secret");
    assert_eq!(
        args,
        vec![
            "-p", "10443,10080,443", "--cacert", "load:/tmp/ca.p12:secret", "-f", "/tmp/flows.log",
            "--pcapoverip", "10444", "--bypassonfail", "1:300", "--tlstimeout", "5", "-v",
        ]
    );
    assert!(availability_from_help(Ok(true)).installed);
    assert_eq!(
        availability_from_help(Ok(false)).reason.as_deref(),
        Some("PolarProxy --help n'a produit aucune sortie")
    );
    assert_eq!(
        availability_from_help(Err("no such file".to_string())).reason.as_deref(),
        Some("PolarProxy introuvable: no such file")
    );
}

#[test]
fn empreinte_sha256_en_hexadecimal() {
    assert_eq!(
        fingerprint_der(b"abc"),
        "ba7816bf8f01cfea414140de5dae2223b00361a396177a9cb410ff61f20015ad"
    );
    assert_eq!(fingerprint_der(&[]).len(), 64);
}

struct MemCaFiles {
    files: std::collections::BTreeMap<String, (String, bool)>,
}

impl CaFiles for MemCaFiles {
    fn file_exists(&self, path: &str) -> bool {
        self.files.contains_key(path)
    }
    fn create_dir_all(&mut self, _path: &str) -> Result<(), String> {
        Ok(())
    }
    fn write_public(&mut self, path: &str, content: &str) -> Result<(), String> {
        self.files.insert(path.to_string(), (content.to_string(), false));
        Ok(())
    }
    fn write_private(&mut self, path: &str, content: &str) -> Result<(), String> {
        self.files.insert(path.to_string(), (content.to_string(), true));
        Ok(())
    }
}

fn ca_subsystem() -> CaSubsystem<FakeHelperBackend, MemCaFiles> {
    CaSubsystem::new(
        StorageHandle::open_in_memory().unwrap(),
        FakeHelperBackend::new(),
        MemCaFiles { files: Default::default() },
        Some("/tmp/xdg".to_string()),
        None,
    )
}

#[test]
fn start_genere_une_ca_et_persiste_ses_metadonnees() {
    let mut subsystem = ca_subsystem();
    subsystem.start().expect("génération CA doit réussir");
    assert!(subsystem.is_active());
    let metadata = subsystem.storage().ca.clone().expect("CA persistée");
    assert_eq!(metadata.fingerprint_sha256.len(), 64);
    assert_eq!(metadata.cert_path, "/tmp/xdg/vitrail/ca/ca.pem");
    assert_eq!(metadata.key_path, "/tmp/xdg/vitrail/ca/ca.key");
    assert!(subsystem.files().file_exists(&metadata.cert_path));
    assert!(subsystem.files().files[&metadata.key_path].1, "clé privée en 600");
    assert!(subsystem.files().files[&metadata.cert_path].0.contains("BEGIN CERTIFICATE"));
    assert_eq!(subsystem.helper().install_calls(), 1);
}

#[test]
fn start_est_idempotent_si_ca_deja_presente() {
    let mut subsystem = ca_subsystem();
    subsystem.start().unwrap();
    subsystem.stop().unwrap();
    subsystem.start().unwrap();
    assert_eq!(
        subsystem.helper().install_calls(),
        1,
        "une deuxième activation ne doit jamais régénérer/réinstaller la CA existante"
    );
}

#[test]
fn stop_ne_desinstalle_jamais_la_ca() {
    let mut subsystem = ca_subsystem();
    subsystem.start().unwrap();
    subsystem.stop().unwrap();
    assert!(!subsystem.is_active());
    assert_eq!(subsystem.helper().remove_calls(), 0, "stop() ne doit jamais retirer la CA");
}

#[test]
fn parametres_de_la_ca() {
    let params = ca_params();
    assert_eq!(params.common_name, "Vitrail Local Root CA");
    assert_eq!(params.is_ca, CaKind::Ca(PathLen::Unconstrained));
}

#[test]
fn certificat_genere_en_pem_avec_son_empreinte() {
    let material = generate_ca().expect("génération CA doit réussir");
    assert!(material.cert_pem.starts_with("-----BEGIN CERTIFICATE-----"));
    assert!(material.cert_pem.trim_end().ends_with("-----END CERTIFICATE-----"));
    assert!(material.fingerprint.chars().all(|c| c.is_ascii_hexdigit() && !c.is_ascii_uppercase()));
    let other = generate_ca().expect("génération CA doit réussir");
    assert_ne!(material.cert_pem, other.cert_pem);
    assert_ne!(material.fingerprint, other.fingerprint);
}

#[test]
fn generation_directe_et_rotation() {
    let material = generate_ca().expect("génération CA doit réussir");
    assert_eq!(material.fingerprint.len(), 64);
    assert!(material.key_pem.contains("PRIVATE KEY"));
    assert!(ca_needs_generation(&None, false));

    let mut storage = StorageHandle::open_in_memory().unwrap();
    let mut helper = FakeHelperBackend::new();
    let mut files = LoggedCaFiles::new(MemCaFiles { files: Default::default() });
    let first = generate_and_install(&mut storage, &mut helper, &mut files, None, Some("/home/u")).unwrap();
    assert_eq!(first.cert_path, "/home/u/.local/share/vitrail/ca/ca.pem");
    let second = rotate_ca(&mut storage, &mut helper, &mut files, None, Some("/home/u")).unwrap();
    assert_ne!(first.fingerprint_sha256, second.fingerprint_sha256);
    assert_eq!(helper.remove_calls(), 1);
    assert_eq!(helper.install_calls(), 2);
    assert_eq!(storage.ca.unwrap().fingerprint_sha256, second.fingerprint_sha256);
    assert_eq!(ca_dir(Some("/tmp/xdg"), None), "/tmp/xdg/vitrail/ca");
}

#[test]
fn rotation_retire_la_ca_enregistree() {
    let mut storage = StorageHandle::open_in_memory().unwrap();
    let mut helper = FakeHelperBackend::new();
    assert!(!remove_recorded_ca(&storage, &mut helper));
    install_and_record(&mut storage, &mut helper, "/tmp/c.pem", "/tmp/c.key", &"b".repeat(64)).unwrap();
    assert!(remove_recorded_ca(&storage, &mut helper));
    assert_eq!(helper.remove_calls(), 1);
}

#[test]
fn ligne_de_session_a_l_heure_courante() {
    let mut storage = StorageHandle::open_in_memory().unwrap();
    let seen = SeenFragments::new();
    let line = "1720000000 tcp 10.0.0.5:51000 93.184.216.34:443 - abcd1234";
    assert!(handle_flowlog_line(line, &mut storage, &seen));
    assert!(storage.pinning_events[0].timestamp_unix > 1_700_000_000);
    assert_eq!(storage.pinning_events[0].host, None);
}
