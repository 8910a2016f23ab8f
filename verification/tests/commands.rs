use vitrail::commands::mock_flows::{
    certificate_for, demo_log_entries, flow_seeds, flows, http_exchange, mock_sources, DestinationTls,
};
use vitrail::commands::alerts::{
    create_alert_rule, list_alert_events, list_alert_rules, toggle_alert_rule, update_alert_rule,
};
use vitrail::commands::search::{convert_query_to_alert, list_saved_queries, save_search_query};
use vitrail::shared::{FlowVisibility, SearchCriteria};

fn criteria() -> SearchCriteria {
    SearchCriteria {
        process: Some("firefox".to_string()),
        destination: None,
        port: Some("443".to_string()),
        visibility: None,
        from: None,
        to: None,
        text: None,
    }
}

#[test]
fn requete_sauvegardee_identifiee_par_la_somme_des_octets_du_nom() {
    let q = save_search_query("ab".to_string(), criteria());
    assert_eq!(q.id, "q-c3");
    assert_eq!(q.name, "ab");
    assert_eq!(q.criteria.port.as_deref(), Some("443"));
    assert_eq!(save_search_query("é".to_string(), criteria()).id, "q-16c");
    assert_eq!(save_search_query(String::new(), criteria()).id, "q-0");
    assert!(list_saved_queries().is_empty());
}

#[test]
fn requete_convertie_en_regle_d_alerte() {
    let rule = convert_query_to_alert("q-c3".to_string(), "Firefox 443".to_string());
    assert_eq!(rule.id, "r-from-q-c3");
    assert_eq!(rule.name, "Firefox 443");
    assert_eq!(rule.criteria, "q-c3");
    assert_eq!(rule.description, "Règle générée depuis une requête de recherche sauvegardée");
    assert!(rule.active);
    assert_eq!(rule.trigger_count, 0);
}

#[test]
fn regles_d_alerte_jamais_inventees() {
    assert!(list_alert_rules().is_empty());
    assert!(list_alert_events(None).is_empty());
    assert!(!toggle_alert_rule("r-1".to_string()));
    let created = create_alert_rule("n".to_string(), "d".to_string(), "c".to_string());
    assert!(created.id.starts_with("r-"));
    assert!(created.id.len() > 2);
    assert!(created.active);
    let updated = update_alert_rule("r-9".to_string(), "n2".to_string(), "d2".to_string(), "c2".to_string());
    assert_eq!(updated.id, "r-9");
    assert_eq!(updated.criteria, "c2");
    assert_eq!(updated.trigger_count, 0);
}

#[test]
fn dix_flux_de_demonstration_avec_requete_seulement_si_dechiffres() {
    let seeds = flow_seeds();
    assert_eq!(seeds.len(), 10);
    let ids: Vec<&str> = seeds.iter().map(|s| s.id).collect();
    assert_eq!(ids, vec!["f0", "f1", "f2", "f3", "f4", "f5", "f6", "f7", "f8", "f9"]);
    assert!(matches!(seeds[5].visibility, FlowVisibility::Attrib));
    assert_eq!(seeds[5].protocol, "TLS 1.2");
    assert_eq!(seeds[6].status, Some(206));
    assert!(seeds[2].method.is_none());
    assert_eq!(seeds[7].method, Some("POST"));
}

#[test]
fn echange_http_de_demonstration() {
    let seeds = flow_seeds();
    let (request, response, body, content_type) = http_exchange(&seeds[0]);
    assert_eq!(request[0].name, "Host");
    assert_eq!(request[0].value, "api.google.com");
    assert_eq!(response[1].value, "45230");
    assert_eq!(response[2].value, "f0-req");
    assert_eq!(body.unwrap(), "{\"timestamp\":\"14:58:44\",\"data\":[...]}");
    assert_eq!(content_type.unwrap(), "application/json; charset=utf-8");
}

#[test]
fn sources_de_demonstration_selon_la_visibilite() {
    let meta = mock_sources(FlowVisibility::Meta);
    assert_eq!(meta.len(), 4);
    assert_eq!(meta[1].status, "ok");
    assert_eq!(meta[2].status, "warn");
    assert_eq!(meta[2].detail, "Échoué (pinning)");
    let attrib = mock_sources(FlowVisibility::Attrib);
    assert_eq!(attrib[1].status, "off");
    assert_eq!(attrib[2].status, "off");
    assert_eq!(attrib[3].detail, "Non utilisé pour ce flux");
}

#[test]
fn journal_de_demonstration() {
    let entries = demo_log_entries();
    assert_eq!(entries.len(), 7);
    assert_eq!(entries[0].time, "14:58:22");
    assert_eq!(entries[5].level, "warn");
    assert_eq!(entries[6].level, "error");
    assert_eq!(entries[6].subsystem, "attribution");
}

#[test]
fn certificat_de_demonstration_pour_une_destination_dechiffree() {
    let dests = vec![
        DestinationTls { domain: "slack.com".to_string(), tls: false },
        DestinationTls { domain: "github.com".to_string(), tls: true },
    ];
    let cert = certificate_for("github.com", &dests).expect("destination déchiffrée");
    assert_eq!(cert.issuer, "Vitrail Local CA");
    assert_eq!(cert.subject, "github.com");
    assert_eq!(cert.fingerprint_sha256, "SHA256:000003F0...BD1F");
    assert!(certificate_for("slack.com", &dests).is_none());
    assert!(certificate_for("inconnu.example", &dests).is_none());
}

#[test]
fn dix_flux_de_demonstration_construits() {
    let dests = vec![DestinationTls { domain: "github.com".to_string(), tls: true }];
    let all = flows(&dests);
    assert_eq!(all.len(), 10);
    assert_eq!(all[0].source_ip, "192.168.1.42");
    assert_eq!(all[0].source_port, 51000);
    assert_eq!(all[9].source_port, 51063);
    assert_eq!(all[0].request_headers.len(), 3);
    assert!(all[2].request_headers.is_empty());
    assert!(all[2].body_preview.is_none());
    assert!(all[4].certificate.is_some());
    assert!(all[0].certificate.is_none());
    assert_eq!(all[5].sources[1].status, "off");
}

