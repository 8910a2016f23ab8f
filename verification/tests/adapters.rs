use vitrail::attribution::daemon_config::{
    read_config_address, DaemonCommands, DaemonConfigurator, SystemDaemonConfigurator,
};
use vitrail::decryption::helper_backend::{HelperCommands, SystemHelperBackend};
use vitrail::decryption::polarproxy::{PolarProxyController, ProcessController, ProxyProcess};
use vitrail::decryption::HelperBackend;
use vitrail::killswitch::{
    KillSwitchError, NftCommands, NftablesBackend, Service, ServiceSubsystem, Subsystem,
    SystemNftablesBackend,
};

/// Records the helper's invocations; answers with a fixed outcome.
struct Recorder {
    calls: Vec<Vec<String>>,
    outcome: Result<(bool, String), String>,
}

impl Recorder {
    fn ok() -> Self {
        Recorder { calls: Vec::new(), outcome: Ok((true, String::new())) }
    }
}

impl NftCommands for Recorder {
    fn run_helper(&mut self, subcommand: &str) -> Result<(bool, String), String> {
        self.calls.push(vec![subcommand.to_string()]);
        self.outcome.clone()
    }
}

impl HelperCommands for Recorder {
    fn run_helper(&mut self, args: &Vec<String>) -> Result<(bool, String), String> {
        self.calls.push(args.clone());
        self.outcome.clone()
    }
}

#[test]
fn chaine_nftables_via_le_helper() {
    let mut backend = SystemNftablesBackend::new(Recorder::ok());
    assert!(!backend.is_applied());
    backend.apply().unwrap();
    assert!(backend.is_applied());
    backend.flush().unwrap();
    assert!(!backend.is_applied());
    assert_eq!(backend.commands().calls, vec![vec!["nft-apply".to_string()], vec!["nft-flush".to_string()]]);

    let mut failing = SystemNftablesBackend::new(Recorder {
        calls: Vec::new(),
        outcome: Ok((false, "  permission refusée \n".to_string())),
    });
    match failing.apply() {
        Err(KillSwitchError::NftablesExec(m)) => assert_eq!(m, "permission refusée"),
        other => panic!("erreur nftables attendue: {other:?}"),
    }
    assert!(!failing.is_applied());
}

#[test]
fn helper_privilegie_construit_ses_arguments() {
    let mut helper = SystemHelperBackend::new(Recorder::ok());
    helper.install_ca("/tmp/ca.pem").unwrap();
    helper.nft_redirect(10443).unwrap();
    assert!(helper.nft_redirect(443).is_err());
    helper
        .nft_set_exclusions(&vec!["10.0.0.1".to_string(), "10.0.0.2".to_string()])
        .unwrap();
    helper.nft_clear_redirect().unwrap();
    helper.remove_ca("abcd").unwrap();
    let expected: Vec<Vec<&str>> = vec![
        vec!["install-ca", "/tmp/ca.pem"],
        vec!["nft-redirect", "10443"],
        vec!["nft-set-exclusions", "10.0.0.1,10.0.0.2"],
        vec!["nft-clear-redirect"],
        vec!["remove-ca", "abcd"],
    ];
    assert_eq!(helper.commands().calls, expected, "port privilégié refusé avant tout appel");
}

#[test]
fn helper_privilegie_remonte_stderr_nettoye() {
    let mut helper = SystemHelperBackend::new(Recorder {
        calls: Vec::new(),
        outcome: Ok((false, " refus polkit\n".to_string())),
    });
    assert_eq!(helper.nft_clear_redirect().unwrap_err(), "refus polkit");
    let mut unavailable = SystemHelperBackend::new(Recorder {
        calls: Vec::new(),
        outcome: Err("pkexec introuvable".to_string()),
    });
    assert_eq!(unavailable.install_ca("/x").unwrap_err(), "pkexec introuvable");
}

struct Daemon {
    installed: bool,
    active: bool,
    config: Option<String>,
    set: Vec<String>,
}

impl DaemonCommands for Daemon {
    fn unit_installed(&self) -> bool {
        self.installed
    }
    fn unit_active(&self) -> bool {
        self.active
    }
    fn read_config(&self) -> Option<String> {
        self.config.clone()
    }
    fn run_set_socket(&mut self, socket_address: &str) -> Result<(bool, String), String> {
        self.set.push(socket_address.to_string());
        Ok((true, String::new()))
    }
}

#[test]
fn configuration_du_daemon_sur_le_systeme() {
    let config = r#"{"Server":{"Address":"unix:///tmp/osui.sock","LogFile":"/var/log/x"}}"#;
    assert_eq!(read_config_address(config), Some("unix:///tmp/osui.sock".to_string()));
    assert_eq!(read_config_address(r#"{"Server":{}}"#), None);
    assert_eq!(read_config_address("pas du json"), None);

    let mut configurator = SystemDaemonConfigurator::new(Daemon {
        installed: true,
        active: true,
        config: Some(config.to_string()),
        set: Vec::new(),
    });
    let detection = configurator.detect("unix:///run/vitrail/ui.sock");
    assert!(detection.installed && detection.active && detection.points_elsewhere);
    assert_eq!(detection.current_address.as_deref(), Some("unix:///tmp/osui.sock"));
    assert!(configurator.set_socket("unix:///tmp/$(whoami)").is_err());
    configurator.set_socket("unix:///run/vitrail/ui.sock").unwrap();
    assert_eq!(configurator.commands().set, vec!["unix:///run/vitrail/ui.sock"]);
}

#[test]
fn daemon_absent_n_est_jamais_actif() {
    let configurator = SystemDaemonConfigurator::new(Daemon {
        installed: false,
        active: true,
        config: None,
        set: Vec::new(),
    });
    let detection = configurator.detect("unix:///v.sock");
    assert!(!detection.installed);
    assert!(!detection.active);
    assert!(detection.current_address.is_none());
}

struct Process {
    listening: bool,
    probed_port: Option<u16>,
    signals: Vec<&'static str>,
}

impl ProxyProcess for Process {
    fn probe_listening(&mut self, listen_port: u16, _timeout_ms: u64) -> bool {
        self.probed_port = Some(listen_port);
        self.listening
    }
    fn signal_stop(&mut self) {
        self.signals.push("TERM");
    }
    fn signal_kill(&mut self) {
        self.signals.push("KILL");
    }
}

#[test]
fn controleur_de_processus_sonde_le_port_mitm() {
    let mut controller =
        ProcessController::new(Process { listening: true, probed_port: None, signals: Vec::new() }, 10443);
    assert!(controller.confirm_listening(5000));
    controller.request_stop();
    controller.request_kill();
    assert_eq!(controller.process().probed_port, Some(10443));
    assert_eq!(controller.process().signals, vec!["TERM", "KILL"]);
    let mut silent =
        ProcessController::new(Process { listening: false, probed_port: None, signals: Vec::new() }, 10443);
    assert!(!silent.confirm_listening(5000));
}

struct Flaky {
    fail_start: bool,
    fail_stop: bool,
}

impl Service for Flaky {
    fn start(&mut self) -> Result<(), KillSwitchError> {
        if self.fail_start {
            Err(KillSwitchError::SubsystemExec { subsystem: "capture".into(), reason: "absent".into() })
        } else {
            Ok(())
        }
    }
    fn stop(&mut self) -> Result<(), KillSwitchError> {
        if self.fail_stop {
            Err(KillSwitchError::SubsystemExec { subsystem: "capture".into(), reason: "bloqué".into() })
        } else {
            Ok(())
        }
    }
}

#[test]
fn domaine_adosse_a_un_service() {
    let mut ok = ServiceSubsystem::new("capture", Flaky { fail_start: false, fail_stop: true });
    assert_eq!(ok.name(), "capture");
    ok.start().unwrap();
    assert!(ok.is_active());
    assert!(ok.stop().is_err());
    assert!(!ok.is_active(), "un arrêt en échec laisse quand même le domaine arrêté");

    let mut ko = ServiceSubsystem::new("capture", Flaky { fail_start: true, fail_stop: false });
    assert!(ko.start().is_err());
    assert!(!ko.is_active());
}
