use vitrail::attribution::{AttributionEvent, FiveTuple};
use vitrail::capture::CapturedPacket;
use vitrail::correlation::channel::CHANNEL_CAPACITY;
use vitrail::correlation::channel;
use vitrail::correlation::builder::{build_flow_at, build_sources, flow_id_string, PendingFlow};
use vitrail::correlation::event::capture_five_tuple;
use vitrail::correlation::{
    determine_visibility, ingest, ingest_at, sweep_expired, sweep_expired_at, CorrelationBuffer,
    CorrelationEvent, CORRELATION_WINDOW_MS,
};
use vitrail::keylog::DecryptedFragment;
use vitrail::shared::{Flow, FlowVisibility};
use vitrail::storage::flows::list_flows;
use vitrail::storage::StorageHandle;

const T0: u64 = 1_720_000_000_000;

fn five_tuple() -> FiveTuple {
    FiveTuple {
        protocol: "tcp".into(),
        src_ip: "192.168.1.42".into(),
        src_port: 51000,
        dst_ip: "1.2.3.4".into(),
        dst_port: 443,
    }
}

fn capture_packet(tuple: &FiveTuple) -> CapturedPacket {
    CapturedPacket {
        timestamp_unix_ms: 0,
        interface: "eth0".into(),
        protocol: tuple.protocol.clone(),
        src_ip: tuple.src_ip.clone(),
        dst_ip: tuple.dst_ip.clone(),
        src_port: Some(tuple.src_port),
        dst_port: Some(tuple.dst_port),
        bytes: 1024,
        sni: Some("example.com".into()),
        detected_protocol: Some("TLS 1.3".into()),
    }
}

fn attribution_event(tuple: &FiveTuple) -> AttributionEvent {
    AttributionEvent {
        pid: 4242,
        exe_path: "/usr/bin/firefox".into(),
        app_name: "Firefox".into(),
        five_tuple: Some(tuple.clone()),
        timestamp_unix_ms: 0,
    }
}

fn decrypted_fragment(tuple: &FiveTuple) -> DecryptedFragment {
    DecryptedFragment {
        five_tuple: tuple.clone(),
        host: Some("example.com".into()),
        method: Some("GET".into()),
        path: Some("/api".into()),
        status: Some(200),
        request_headers: Vec::new(),
        response_headers: Vec::new(),
        body_preview: None,
        content_type: None,
        certificate: None,
    }
}

fn test_storage() -> StorageHandle {
    StorageHandle::open_in_memory().expect("ouverture storage en mémoire pour le test")
}

struct Engine {
    buffer: CorrelationBuffer,
    storage: StorageHandle,
    sequence: u64,
    emitted: Vec<Flow>,
}

impl Engine {
    fn new() -> Self {
        Engine {
            buffer: CorrelationBuffer::new(),
            storage: test_storage(),
            sequence: 0,
            emitted: Vec::new(),
        }
    }

    fn ingest(&mut self, event: CorrelationEvent, now_ms: u64) {
        if let Some(flow) =
            ingest_at(&mut self.buffer, event, &mut self.storage, &mut self.sequence, now_ms)
        {
            self.emitted.push(flow);
        }
    }

    fn sweep(&mut self, now_ms: u64) {
        let flows = sweep_expired_at(&mut self.buffer, &mut self.storage, &mut self.sequence, now_ms);
        self.emitted.extend(flows);
    }
}

#[test]
fn attribution_puis_capture_fusionnent_immediatement_sans_attendre_la_fenetre() {
    let tuple = five_tuple();
    let mut e = Engine::new();
    e.ingest(CorrelationEvent::Attribution(attribution_event(&tuple)), T0);
    assert!(e.buffer.contains_key(&tuple), "attribution seule doit rester en attente");
    e.ingest(CorrelationEvent::Capture(capture_packet(&tuple)), T0 + 10);
    assert!(e.buffer.is_empty(), "la clé doit être retirée du buffer après fusion");
    assert_eq!(e.emitted.len(), 1, "une seule fusion doit produire un seul flow");
    assert_eq!(e.emitted[0].visibility, FlowVisibility::Meta);
    assert_eq!(e.emitted[0].process, "Firefox");
}

#[test]
fn capture_puis_attribution_fusionnent_immediatement_dans_l_ordre_inverse() {
    let tuple = five_tuple();
    let mut e = Engine::new();
    e.ingest(CorrelationEvent::Capture(capture_packet(&tuple)), T0);
    e.ingest(CorrelationEvent::Attribution(attribution_event(&tuple)), T0 + 10);
    assert!(e.buffer.is_empty());
    assert_eq!(e.emitted.len(), 1);
    assert_eq!(e.emitted[0].visibility, FlowVisibility::Meta);
}

#[test]
fn capture_seule_expire_en_meta_apres_la_fenetre() {
    let tuple = five_tuple();
    let mut e = Engine::new();
    e.ingest(CorrelationEvent::Capture(capture_packet(&tuple)), T0);
    e.sweep(T0 + CORRELATION_WINDOW_MS + 1000);
    assert!(e.buffer.is_empty());
    assert_eq!(e.emitted.len(), 1);
    assert_eq!(e.emitted[0].visibility, FlowVisibility::Meta);
    assert_eq!(e.emitted[0].process, "Processus inconnu");
}

#[test]
fn attribution_seule_expire_en_attrib_apres_la_fenetre() {
    let tuple = five_tuple();
    let mut e = Engine::new();
    e.ingest(CorrelationEvent::Attribution(attribution_event(&tuple)), T0);
    e.sweep(T0 + CORRELATION_WINDOW_MS + 1000);
    assert_eq!(e.emitted.len(), 1);
    assert_eq!(e.emitted[0].visibility, FlowVisibility::Attrib);
    assert_eq!(e.emitted[0].process, "Firefox");
}

#[test]
fn une_entree_dans_sa_fenetre_n_expire_pas() {
    let tuple = five_tuple();
    let mut e = Engine::new();
    e.ingest(CorrelationEvent::Capture(capture_packet(&tuple)), T0);
    e.sweep(T0 + CORRELATION_WINDOW_MS - 1);
    assert_eq!(e.buffer.len(), 1);
    assert!(e.emitted.is_empty());
}

#[test]
fn aucun_fragment_dans_la_fenetre_ne_produit_aucun_flow() {
    let mut e = Engine::new();
    e.sweep(T0);
    assert!(e.emitted.is_empty());
}

#[test]
fn deux_paquets_capture_du_meme_5_tuple_ne_produisent_qu_un_seul_flow() {
    let tuple = five_tuple();
    let mut e = Engine::new();
    e.ingest(CorrelationEvent::Capture(capture_packet(&tuple)), T0);
    e.ingest(CorrelationEvent::Capture(capture_packet(&tuple)), T0 + 1);
    assert_eq!(e.buffer.len(), 1, "un seul agrégat en attente pour ce 5-tuple");
    e.ingest(CorrelationEvent::Attribution(attribution_event(&tuple)), T0 + 2);
    assert_eq!(e.emitted.len(), 1, "un seul flow émis malgré les deux fragments capture");
}

#[test]
fn un_fragment_decrypte_seul_fusionne_immediatement_en_fully() {
    let tuple = five_tuple();
    let mut e = Engine::new();
    e.ingest(CorrelationEvent::Decryption(decrypted_fragment(&tuple)), T0);
    assert!(e.buffer.is_empty());
    assert_eq!(e.emitted.len(), 1);
    assert_eq!(e.emitted[0].visibility, FlowVisibility::Fully);
    assert_eq!(e.emitted[0].destination, "example.com");
    assert_eq!(e.emitted[0].method.as_deref(), Some("GET"));
}

#[test]
fn capture_puis_decryption_fusionnent_immediatement_en_fully_avec_process_inconnu() {
    let tuple = five_tuple();
    let mut e = Engine::new();
    e.ingest(CorrelationEvent::Capture(capture_packet(&tuple)), T0);
    assert!(e.buffer.contains_key(&tuple), "capture seule doit rester en attente");
    e.ingest(CorrelationEvent::Decryption(decrypted_fragment(&tuple)), T0 + 5);
    assert!(e.buffer.is_empty());
    assert_eq!(e.emitted.len(), 1);
    assert_eq!(e.emitted[0].visibility, FlowVisibility::Fully);
    assert_eq!(e.emitted[0].process, "Processus inconnu");
}

#[test]
fn decryption_tardive_apres_fermeture_capture_attribution_enrichit_au_lieu_de_dupliquer() {
    let tuple = five_tuple();
    let mut e = Engine::new();
    e.ingest(CorrelationEvent::Capture(capture_packet(&tuple)), T0);
    e.ingest(CorrelationEvent::Attribution(attribution_event(&tuple)), T0 + 10);
    assert!(
        e.buffer.is_empty(),
        "capture+attribution doivent avoir fusionné et vidé le buffer avant la decryption"
    );
    assert_eq!(e.emitted.len(), 1, "un seul flow Meta émis à ce stade");

    e.ingest(CorrelationEvent::Decryption(decrypted_fragment(&tuple)), T0 + 2000);
    assert!(
        e.buffer.is_empty(),
        "le fragment tardif ne doit jamais ouvrir une nouvelle entrée de buffer"
    );

    let persisted = list_flows(&e.storage, 10)
        .expect("lecture storage pour vérifier l'absence de doublon");
    assert_eq!(persisted.len(), 1);
    assert_eq!(persisted[0].visibility, FlowVisibility::Fully);
    assert_eq!(persisted[0].destination, "example.com");
    assert_eq!(persisted[0].method.as_deref(), Some("GET"));
    assert_eq!(
        persisted[0].process, "Firefox",
        "l'attribution déjà connue doit être préservée par l'enrichissement"
    );

    assert_eq!(
        e.emitted.len(),
        2,
        "Meta initial + réémission Fully enrichie, mais toujours le même flow"
    );
    assert_eq!(e.emitted[0].id, e.emitted[1].id);
    assert_eq!(e.emitted[1].visibility, FlowVisibility::Fully);
}

#[test]
fn decryption_bien_apres_la_fenetre_recente_cree_un_nouveau_flow() {
    let tuple = five_tuple();
    let mut e = Engine::new();
    e.ingest(CorrelationEvent::Capture(capture_packet(&tuple)), T0);
    e.ingest(CorrelationEvent::Attribution(attribution_event(&tuple)), T0 + 10);
    e.ingest(CorrelationEvent::Decryption(decrypted_fragment(&tuple)), T0 + 60_000);
    let persisted = list_flows(&e.storage, 10).unwrap();
    assert_eq!(persisted.len(), 2);
    assert_ne!(e.emitted[0].id, e.emitted[1].id);
}

#[test]
fn ingest_et_sweep_a_l_heure_courante() {
    let tuple = five_tuple();
    let mut buffer = CorrelationBuffer::new();
    let mut storage = test_storage();
    let mut sequence = 0u64;
    assert!(ingest(
        &mut buffer,
        CorrelationEvent::Attribution(attribution_event(&tuple)),
        &mut storage,
        &mut sequence,
    )
    .is_none());
    assert!(sweep_expired(&mut buffer, &mut storage, &mut sequence).is_empty());
    assert_eq!(buffer.len(), 1);
    let flow = ingest(
        &mut buffer,
        CorrelationEvent::Capture(capture_packet(&tuple)),
        &mut storage,
        &mut sequence,
    );
    assert!(flow.is_some());
    assert!(buffer.is_empty());
}

#[test]
fn le_protocole_est_mis_en_minuscules() {
    let mut packet = capture_packet(&five_tuple());
    packet.protocol = "TCP".into();
    let key = capture_five_tuple(&packet).unwrap();
    assert_eq!(key.protocol, "tcp");
    packet.src_port = None;
    assert!(capture_five_tuple(&packet).is_none());
}

#[test]
fn identifiant_et_sources_du_flow() {
    let tuple = five_tuple();
    assert_eq!(flow_id_string(&tuple, 7), "tcp-192.168.1.42-51000-1.2.3.4-443-7");
    let sources = build_sources(true, false, false);
    assert_eq!(sources.len(), 4);
    let mut pending = PendingFlow::new_at(tuple, T0);
    pending.capture = Some(capture_packet(&five_tuple()));
    let flow = build_flow_at(&pending, 3, 1_720_000_000);
    assert_eq!(flow.visibility, FlowVisibility::Meta);
    assert_eq!(flow.destination, "example.com");
    assert_eq!(flow.size_bytes, 1024);
}

#[test]
fn couvre_toutes_les_combinaisons_de_sources() {
    let cases: [(bool, bool, bool, bool, FlowVisibility); 16] = [
        (false, false, false, false, FlowVisibility::Unknown),
        (false, false, false, true, FlowVisibility::Fully),
        (false, false, true, false, FlowVisibility::Fully),
        (false, false, true, true, FlowVisibility::Fully),
        (false, true, false, false, FlowVisibility::Attrib),
        (false, true, false, true, FlowVisibility::Fully),
        (false, true, true, false, FlowVisibility::Fully),
        (false, true, true, true, FlowVisibility::Fully),
        (true, false, false, false, FlowVisibility::Meta),
        (true, false, false, true, FlowVisibility::Fully),
        (true, false, true, false, FlowVisibility::Fully),
        (true, false, true, true, FlowVisibility::Fully),
        (true, true, false, false, FlowVisibility::Meta),
        (true, true, false, true, FlowVisibility::Fully),
        (true, true, true, false, FlowVisibility::Fully),
        (true, true, true, true, FlowVisibility::Fully),
    ];
    for (capture, attribution, decryption, keylog, expected) in cases {
        let visibility = determine_visibility(capture, attribution, decryption, keylog);
        assert_eq!(
            visibility, expected,
            "capture={capture} attribution={attribution} decryption={decryption} keylog={keylog}"
        );
    }
}

#[test]
fn capture_seule_donne_meta() {
    assert_eq!(determine_visibility(true, false, false, false), FlowVisibility::Meta);
}

#[test]
fn attribution_seule_donne_attrib() {
    assert_eq!(determine_visibility(false, true, false, false), FlowVisibility::Attrib);
}

#[test]
fn rien_donne_unknown() {
    assert_eq!(determine_visibility(false, false, false, false), FlowVisibility::Unknown);
}

#[test]
fn decryption_prime_sur_tout_le_reste() {
    assert_eq!(determine_visibility(true, true, true, false), FlowVisibility::Fully);
}

#[test]
fn keylog_seul_donne_fully_meme_sans_capture_ni_attribution() {
    assert_eq!(determine_visibility(false, false, false, true), FlowVisibility::Fully);
}

#[test]
fn canal_premier_entre_premier_sorti_et_borne() {
    let tuple = five_tuple();
    let mut sender = channel();
    assert!(sender.try_recv().is_none());
    sender.send_attribution(attribution_event(&tuple));
    sender.send_capture(capture_packet(&tuple));
    sender.send_decryption(decrypted_fragment(&tuple));
    assert_eq!(sender.len(), 3);
    assert!(matches!(sender.try_recv(), Some(CorrelationEvent::Attribution(_))));
    assert!(matches!(sender.try_recv(), Some(CorrelationEvent::Capture(_))));
    assert!(matches!(sender.try_recv(), Some(CorrelationEvent::Decryption(_))));
    assert!(sender.try_recv().is_none());

    for _ in 0..CHANNEL_CAPACITY + 5 {
        sender.send_capture(capture_packet(&tuple));
    }
    assert_eq!(sender.len(), CHANNEL_CAPACITY);
}

#[test]
fn file_pleine_garde_les_premiers_dans_l_ordre() {
    let tuple = five_tuple();
    let mut sender = channel();
    for k in 0..(CHANNEL_CAPACITY + 1) {
        let mut packet = capture_packet(&tuple);
        packet.timestamp_unix_ms = k as u128;
        sender.send_capture(packet);
    }
    for k in 0..CHANNEL_CAPACITY {
        match sender.try_recv() {
            Some(CorrelationEvent::Capture(p)) => assert_eq!(p.timestamp_unix_ms, k as u128),
            _ => panic!("rapport {k} manquant ou d'un autre type"),
        }
    }
    assert!(sender.try_recv().is_none());
}
