//! Detection and reconfiguration of the OpenSnitch daemon: the daemon is pointed at
//! Vitrail's socket on start and back at its original address on stop. Addresses are
//! checked before any privileged call.

use vstd::prelude::*;

use crate::json::{get_member, json_parse, member, parse_json, JsonValue};
use crate::killswitch::{exec_error, is_exec_error, KillSwitchError};
use crate::storage::attribution::{origin_rows, read_origin_socket, save_origin_socket};
use crate::storage::StorageHandle;
use crate::text::{chars_of, contains, is_ascii_alnum, owned, push_str, starts_with, trim, trim_str};

verus! {

/// What is known of the daemon before it is reconfigured.
#[derive(Debug, Clone)]
pub struct DaemonDetection {
    pub installed: bool,
    pub active: bool,
    pub current_address: Option<String>,
    /// The daemon currently points somewhere other than Vitrail (probably another user
    /// interface, which the reconfiguration will cut off).
    pub points_elsewhere: bool,
}

/// The detection from what the system reports: the daemon counts as active only when it is
/// installed, and it points elsewhere when its current address is known and is not
/// Vitrail's.
pub fn detection_from(
    installed: bool,
    running: bool,
    current_address: Option<String>,
    vitrail_socket: &str,
) -> (d: DaemonDetection)
    ensures
        d.installed == installed,
        d.active == (installed && running),
        crate::shared::opt_view(d.current_address) == crate::shared::opt_view(current_address),
        d.points_elsewhere == (match current_address {
            Some(a) => a@ != vitrail_socket@,
            None => false,
        }),
{
    let points_elsewhere = match &current_address {
        Some(a) => !crate::text::str_eq(a.as_str(), vitrail_socket),
        None => false,
    };
    DaemonDetection { installed, active: installed && running, current_address, points_elsewhere }
}

/// The daemon's configuration as the kill switch sees it.
pub trait DaemonConfigurator {
    /// The socket address that the daemon was last successfully told to use.
    spec fn spec_socket(&self) -> Option<Seq<char>>;

    /// The addresses the daemon was asked to use, in order, each with whether the change
    /// was accepted.
    spec fn spec_asked(&self) -> Seq<(Seq<char>, bool)>;

    /// Whether every change of address is accepted.
    spec fn spec_accepts(&self) -> bool;

    fn detect(&self, vitrail_socket: &str) -> DaemonDetection;

    fn set_socket(&mut self, socket_address: &str) -> (r: Result<(), KillSwitchError>)
        ensures
            r is Ok ==> final(self).spec_socket() == Some(socket_address@),
            r is Err ==> final(self).spec_socket() == old(self).spec_socket(),
            final(self).spec_asked() == old(self).spec_asked().push((socket_address@, r is Ok)),
            final(self).spec_accepts() == old(self).spec_accepts(),
            old(self).spec_accepts() ==> r is Ok,
    ;
}

pub open spec fn socket_char_allowed(c: char) -> bool {
    is_ascii_alnum(c) || c == '/' || c == '_' || c == '-' || c == '.'
}

/// An accepted address: `unix://` then an absolute, non-empty path of at most 4096
/// characters, without `..`, made of ASCII letters, digits and `/ _ - .` only.
pub open spec fn valid_socket_address(a: Seq<char>) -> bool {
    let path = a.subrange(7, a.len() as int);
    &&& starts_with(a, "unix://"@)
    &&& path.len() > 0
    &&& path[0] == '/'
    &&& !contains(path, ".."@)
    &&& path.len() <= 4096
    &&& forall|i: int| 0 <= i < path.len() ==> socket_char_allowed(#[trigger] path[i])
}

pub open spec fn invalid_address_reason(a: Seq<char>) -> Seq<char> {
    "adresse socket invalide, refusée: "@ + a
}

/// Refuses any address but `unix:///absolute/path` before a privileged call sees it.
pub fn validate_socket_address(address: &str) -> (r: Result<(), KillSwitchError>)
    ensures
        r is Ok <==> valid_socket_address(address@),
        r matches Err(e) ==> is_exec_error(e, "attribution"@, invalid_address_reason(address@)),
{
    proof {
        reveal_strlit("unix://");
        reveal_strlit("..");
    }
    let chars = chars_of(address);
    let prefix = chars_of("unix://");
    let dots = chars_of("..");
    let ok = if !crate::text::has_prefix(&chars, &prefix) {
        false
    } else {
        let n = chars.len();
        let path = crate::text::slice_vec(&chars, 7, n);
        if path.len() == 0 || path[0] != '/' || crate::text::has_substring(&path, &dots) || path.len() > 4096 {
            false
        } else {
            let mut all = true;
            let mut i: usize = 0;
            while i < path.len()
                invariant
                    0 <= i <= path@.len(),
                    all == forall|j: int| 0 <= j < i ==> socket_char_allowed(#[trigger] path@[j]),
                decreases path@.len() - i,
            {
                let c = path[i];
                let allowed = crate::text::char_is_ascii_alnum(c) || c == '/' || c == '_' || c == '-'
                    || c == '.';
                proof {
                    if !allowed {
                        assert(!socket_char_allowed(path@[i as int]));
                    }
                }
                all = all && allowed;
                i += 1;
            }
            all
        }
    };
    if ok {
        Ok(())
    } else {
        let mut reason = owned("adresse socket invalide, refusée: ");
        push_str(&mut reason, address);
        Err(exec_error("attribution", reason.as_str()))
    }
}

/// The outcome of the privileged helper that rewrites the daemon's address: success, or the
/// helper's trimmed error output.
pub fn set_socket_outcome(success: bool, stderr: &str) -> (r: Result<(), KillSwitchError>)
    ensures
        r is Ok <==> success,
        r matches Err(e) ==> is_exec_error(e, "attribution"@, trim(stderr@)),
{
    if success {
        Ok(())
    } else {
        let reason = trim_str(stderr);
        Err(exec_error("attribution", reason.as_str()))
    }
}

/// Saves the daemon's original address before any reconfiguration; earlier ones are kept,
/// and restoring reads the last one.
pub fn save_original_address(storage: &mut StorageHandle, original_address: &str) -> (r: Result<
    (),
    KillSwitchError,
>)
    ensures
        r is Ok,
        origin_rows(*final(storage)) == origin_rows(*old(storage)).push(original_address@),
{
    match save_origin_socket(storage, original_address) {
        Ok(()) => Ok(()),
        Err(error) => Err(KillSwitchError::Persistence(error.message)),
    }
}

/// The last saved original address.
pub fn read_last_original_address(storage: &StorageHandle) -> (r: Option<String>)
    ensures
        match r {
            Some(a) => origin_rows(*storage).len() > 0 && a@ == origin_rows(*storage).last(),
            None => origin_rows(*storage).len() == 0,
        },
{
    match read_origin_socket(storage) {
        Ok(found) => found,
        Err(_) => None,
    }
}

/// Points the daemon at `target` (Vitrail's socket), after saving the address it had: the
/// detection and the outcome of the reconfiguration.
pub fn reconfigure_daemon<C: DaemonConfigurator + ?Sized>(
    configurator: &mut C,
    storage: &mut StorageHandle,
    target: &str,
) -> (r: (DaemonDetection, Result<(), KillSwitchError>))
    ensures
        origin_rows(*final(storage)) == (match r.0.current_address {
            Some(a) => origin_rows(*old(storage)).push(a@),
            None => origin_rows(*old(storage)),
        }),
        r.1 is Ok ==> final(configurator).spec_socket() == Some(target@),
        final(configurator).spec_asked() == old(configurator).spec_asked().push((target@, r.1 is Ok)),
        final(configurator).spec_accepts() == old(configurator).spec_accepts(),
        old(configurator).spec_accepts() ==> r.1 is Ok,
{
    let detection = configurator.detect(target);
    if let Some(original) = &detection.current_address {
        let _ = save_original_address(storage, original.as_str());
    }
    let outcome = configurator.set_socket(target);
    (detection, outcome)
}

/// Points the daemon back at the last saved original address; nothing to do when none was
/// saved.
pub fn restore_daemon<C: DaemonConfigurator + ?Sized>(configurator: &mut C, storage: &StorageHandle) -> (r: Result<
    (),
    KillSwitchError,
>)
    ensures
        origin_rows(*storage).len() == 0 ==> r is Ok && final(configurator).spec_socket()
            == old(configurator).spec_socket(),
        origin_rows(*storage).len() > 0 && r is Ok ==> final(configurator).spec_socket() == Some(
            origin_rows(*storage).last(),
        ),
        origin_rows(*storage).len() == 0 ==> final(configurator).spec_asked() == old(
            configurator,
        ).spec_asked(),
        origin_rows(*storage).len() > 0 ==> final(configurator).spec_asked() == old(
            configurator,
        ).spec_asked().push((origin_rows(*storage).last(), r is Ok)),
        final(configurator).spec_accepts() == old(configurator).spec_accepts(),
        old(configurator).spec_accepts() ==> r is Ok,
{
    match read_last_original_address(storage) {
        Some(original) => configurator.set_socket(original.as_str()),
        None => Ok(()),
    }
}

/// After a reconfiguration that found the daemon at some address, a successful restoration
/// points the daemon back at exactly that address.
pub proof fn lemma_restore_returns_to_original(
    s0: StorageHandle,
    s1: StorageHandle,
    detection: DaemonDetection,
    restored_socket: Option<Seq<char>>,
)
    requires
        detection.current_address is Some,
        origin_rows(s1) == origin_rows(s0).push(detection.current_address->0@),
        origin_rows(s1).len() > 0 ==> restored_socket == Some(origin_rows(s1).last()),
    ensures
        restored_socket == Some(detection.current_address->0@),
{
}

/// The daemon's address in its configuration text: the string `Server.Address` of the JSON
/// document.
pub open spec fn config_address(config: Seq<char>) -> Option<Seq<char>> {
    match json_parse(config) {
        Some(doc) => match member(doc, "Server"@) {
            Some(server) => match member(server, "Address"@) {
                Some(JsonValue::Str(a)) => Some(a@),
                _ => None,
            },
            None => None,
        },
        None => None,
    }
}

/// Reads the daemon's address from the text of its configuration file.
pub fn read_config_address(config: &str) -> (r: Option<String>)
    ensures
        crate::shared::opt_view(r) == config_address(config@),
{
    let doc = match parse_json(config) {
        Some(d) => d,
        None => {
            return None;
        },
    };
    let server = match get_member(&doc, "Server") {
        Some(s) => s,
        None => {
            return None;
        },
    };
    match get_member(server, "Address") {
        Some(JsonValue::Str(a)) => Some(a.clone()),
        _ => None,
    }
}

/// The daemon on the system: its systemd unit, its configuration file, and the privileged
/// helper that rewrites its address (`Err` with the error text when the helper could not be
/// run, else whether it succeeded and its error output).
pub trait DaemonCommands {
    fn unit_installed(&self) -> bool;

    fn unit_active(&self) -> bool;

    /// The text of the daemon's configuration file, when it can be read.
    fn read_config(&self) -> Option<String>;

    fn run_set_socket(&mut self, socket_address: &str) -> Result<(bool, String), String>;
}

/// The daemon's configuration on the system. The address it uses is the last one it was
/// successfully told.
pub struct SystemDaemonConfigurator<C: DaemonCommands> {
    commands: C,
    socket: Ghost<Option<Seq<char>>>,
    requests: Ghost<Seq<Seq<char>>>,
    asked: Ghost<Seq<(Seq<char>, bool)>>,
}

impl<C: DaemonCommands> SystemDaemonConfigurator<C> {
    /// The addresses handed to the privileged helper, in order.
    pub closed spec fn spec_requests(&self) -> Seq<Seq<char>> {
        self.requests@
    }

    pub closed spec fn spec_commands(&self) -> C {
        self.commands
    }

    pub fn new(commands: C) -> (c: SystemDaemonConfigurator<C>)
        ensures
            c.spec_socket() is None,
            c.spec_requests().len() == 0,
            c.spec_commands() == commands,
    {
        SystemDaemonConfigurator {
            commands,
            socket: Ghost(None),
            requests: Ghost(Seq::empty()),
            asked: Ghost(Seq::empty()),
        }
    }

    pub fn commands(&self) -> (r: &C)
        ensures
            *r == self.spec_commands(),
    {
        &self.commands
    }
}

impl<C: DaemonCommands> DaemonConfigurator for SystemDaemonConfigurator<C> {
    closed spec fn spec_socket(&self) -> Option<Seq<char>> {
        self.socket@
    }

    closed spec fn spec_asked(&self) -> Seq<(Seq<char>, bool)> {
        self.asked@
    }

    /// The daemon on the system may refuse.
    closed spec fn spec_accepts(&self) -> bool {
        false
    }

    /// Read only: whether the unit is installed (and then running), and the address in the
    /// configuration file.
    fn detect(&self, vitrail_socket: &str) -> (d: DaemonDetection)
        ensures
            d.active ==> d.installed,
            d.points_elsewhere == (match d.current_address {
                Some(a) => a@ != vitrail_socket@,
                None => false,
            }),
    {
        let installed = self.commands.unit_installed();
        let running = installed && self.commands.unit_active();
        let current_address = match self.commands.read_config() {
            Some(config) => read_config_address(config.as_str()),
            None => None,
        };
        detection_from(installed, running, current_address, vitrail_socket)
    }

    /// Only a valid address reaches the privileged helper.
    fn set_socket(&mut self, socket_address: &str) -> (r: Result<(), KillSwitchError>)
        ensures
            !valid_socket_address(socket_address@) ==> (r matches Err(e) && is_exec_error(
                e,
                "attribution"@,
                invalid_address_reason(socket_address@),
            )) && final(self).spec_requests() == old(self).spec_requests(),
            valid_socket_address(socket_address@) ==> final(self).spec_requests() == old(
                self,
            ).spec_requests().push(socket_address@),
            r is Err ==> final(self).spec_socket() == old(self).spec_socket(),
            r matches Err(e) ==> e is SubsystemExec,
    {
        match validate_socket_address(socket_address) {
            Ok(()) => {},
            Err(e) => {
                proof {
                    self.asked@ = self.asked@.push((socket_address@, false));
                }
                return Err(e);
            },
        }
        proof {
            self.requests@ = self.requests@.push(socket_address@);
        }
        let r = match self.commands.run_set_socket(socket_address) {
            Ok((success, stderr)) => set_socket_outcome(success, stderr.as_str()),
            Err(error) => Err(exec_error("attribution", error.as_str())),
        };
        if r.is_ok() {
            self.socket = Ghost(Some(socket_address@));
        }
        proof {
            self.asked@ = self.asked@.push((socket_address@, r is Ok));
        }
        r
    }
}

/// A configurator that records the addresses it is given; it can be told to fail.
pub struct FakeDaemonConfigurator {
    pub set_calls: Vec<String>,
    pub fail_set: bool,
    pub asked: Ghost<Seq<(Seq<char>, bool)>>,
}

impl FakeDaemonConfigurator {
    pub fn new() -> (f: FakeDaemonConfigurator)
        ensures
            f.set_calls@.len() == 0,
            !f.fail_set,
            f.spec_asked().len() == 0,
            f.spec_socket() is None,
    {
        FakeDaemonConfigurator { set_calls: Vec::new(), fail_set: false, asked: Ghost(Seq::empty()) }
    }
}

impl DaemonConfigurator for FakeDaemonConfigurator {
    closed spec fn spec_socket(&self) -> Option<Seq<char>> {
        if self.set_calls@.len() == 0 {
            None
        } else {
            Some(self.set_calls@.last()@)
        }
    }

    closed spec fn spec_asked(&self) -> Seq<(Seq<char>, bool)> {
        self.asked@
    }

    closed spec fn spec_accepts(&self) -> bool {
        !self.fail_set
    }

    /// The daemon is installed, active, and points at `unix:///tmp/osui.sock`.
    fn detect(&self, vitrail_socket: &str) -> (d: DaemonDetection)
        ensures
            d.installed,
            d.active,
            crate::shared::opt_view(d.current_address) == Some("unix:///tmp/osui.sock"@),
            d.points_elsewhere == ("unix:///tmp/osui.sock"@ != vitrail_socket@),
    {
        detection_from(true, true, Some(owned("unix:///tmp/osui.sock")), vitrail_socket)
    }

    fn set_socket(&mut self, socket_address: &str) -> (r: Result<(), KillSwitchError>)
        ensures
            r is Ok <==> !old(self).fail_set,
            r is Ok ==> final(self).set_calls@.map_values(|a: String| a@) == old(
                self,
            ).set_calls@.map_values(|a: String| a@).push(socket_address@),
            r matches Err(e) ==> is_exec_error(e, "attribution"@, "échec simulé"@),
            r is Err ==> final(self).set_calls@ == old(self).set_calls@,
            final(self).fail_set == old(self).fail_set,
    {
        if self.fail_set {
            proof {
                self.asked@ = self.asked@.push((socket_address@, false));
            }
            return Err(exec_error("attribution", "échec simulé"));
        }
        proof {
            self.asked@ = self.asked@.push((socket_address@, true));
        }
        self.set_calls.push(owned(socket_address));
        Ok(())
    }
}

} // verus!
