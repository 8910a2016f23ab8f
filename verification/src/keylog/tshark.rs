//! The tshark process that decrypts with the applications' session keys: how it is found,
//! launched and read.

use vstd::prelude::*;

use crate::killswitch::{exec_error, KillSwitchError};
use crate::text::owned;

use crate::shared::{opt_view, strings_view};

use super::detection::{availability_view, TsharkAvailability};

verus! {

/// The lines of tshark's `-T ek` output; `None` once the stream ends.
pub trait TsharkReader {
    fn next_line(&mut self) -> Option<String>;
}

/// Stops a running tshark.
pub trait TsharkHandle {
    fn stop(&mut self);
}

/// A launched tshark: its output and its stop handle, apart so that the reading can run on
/// its own while a stop is requested.
pub struct SpawnedTshark<R: TsharkReader, H: TsharkHandle> {
    pub reader: R,
    pub handle: H,
}

/// Finds and launches tshark.
pub trait TsharkBackend {
    type Reader: TsharkReader;

    type Handle: TsharkHandle;

    fn detect(&self) -> TsharkAvailability;

    /// Launches tshark on the given interfaces with the given key file; the error text on
    /// failure.
    fn spawn(&mut self, keyfile: &str, interfaces: &Vec<String>) -> Result<
        SpawnedTshark<Self::Reader, Self::Handle>,
        String,
    >;
}

/// Launches tshark when it can capture: `None` (degraded, not an error) when it cannot, an
/// error of the keylog domain when it can but does not start.
pub fn start_tshark<B: TsharkBackend + ?Sized>(backend: &mut B, keyfile: &str) -> (r: Result<
    Option<SpawnedTshark<B::Reader, B::Handle>>,
    KillSwitchError,
>)
    ensures
        r matches Err(e) ==> (e matches KillSwitchError::SubsystemExec { subsystem, reason: _ }
            && subsystem@ == "keylog"@),
{
    let availability = backend.detect();
    if !availability.can_capture {
        return Ok(None);
    }
    match backend.spawn(keyfile, &availability.interfaces) {
        Ok(spawned) => Ok(Some(spawned)),
        Err(error) => Err(exec_error("keylog", error.as_str())),
    }
}

/// Hands out fixed lines, then the end of the stream.
pub struct FakeTsharkReader {
    lines: Vec<String>,
    next: usize,
}

impl FakeTsharkReader {
    /// The lines not handed out yet.
    pub closed spec fn spec_remaining(&self) -> Seq<Seq<char>> {
        if self.next <= self.lines@.len() {
            strings_view(self.lines@).subrange(self.next as int, self.lines@.len() as int)
        } else {
            Seq::empty()
        }
    }
}

impl TsharkReader for FakeTsharkReader {
    /// The next line not handed out yet, `None` once all were.
    fn next_line(&mut self) -> (r: Option<String>)
        ensures
            old(self).spec_remaining().len() > 0 ==> (r matches Some(l) && l@ == old(
                self,
            ).spec_remaining()[0]) && final(self).spec_remaining() == old(
                self,
            ).spec_remaining().drop_first(),
            old(self).spec_remaining().len() == 0 ==> r is None && final(self).spec_remaining()
                == old(self).spec_remaining(),
    {
        if self.next < self.lines.len() {
            let line = self.lines[self.next].clone();
            self.next = self.next + 1;
            Some(line)
        } else {
            None
        }
    }
}

/// Records that a stop was requested.
pub struct FakeTsharkHandle {
    pub stopped: bool,
}

impl TsharkHandle for FakeTsharkHandle {
    fn stop(&mut self)
        ensures
            final(self).stopped,
    {
        self.stopped = true;
    }
}

/// A tshark that runs nothing: it reports a fixed availability and hands out the given
/// lines once; its launch can be made to fail.
pub struct FakeTsharkBackend {
    pub lines: Vec<String>,
    pub availability: TsharkAvailability,
    pub fail_spawn: bool,
}

impl FakeTsharkBackend {
    /// Capture is possible on interface `1`; the lines are what tshark will print.
    pub fn available(lines: Vec<String>) -> (b: FakeTsharkBackend)
        ensures
            b.availability.installed,
            b.availability.can_capture,
            b.availability.reason is None,
            !b.fail_spawn,
    {
        let mut interfaces: Vec<String> = Vec::new();
        interfaces.push(owned("1"));
        FakeTsharkBackend {
            lines,
            availability: TsharkAvailability { installed: true, can_capture: true, interfaces, reason: None },
            fail_spawn: false,
        }
    }

    /// tshark is absent.
    pub fn unavailable() -> (b: FakeTsharkBackend)
        ensures
            !b.availability.installed,
            !b.availability.can_capture,
            b.availability.interfaces@.len() == 0,
            opt_view(b.availability.reason) == Some("tshark absent (fake)"@),
            b.lines@.len() == 0,
            !b.fail_spawn,
    {
        FakeTsharkBackend {
            lines: Vec::new(),
            availability: TsharkAvailability::unavailable("tshark absent (fake)"),
            fail_spawn: false,
        }
    }
}

impl TsharkBackend for FakeTsharkBackend {
    type Reader = FakeTsharkReader;

    type Handle = FakeTsharkHandle;

    /// The availability it was given.
    fn detect(&self) -> (a: TsharkAvailability)
        ensures
            availability_view(a) == availability_view(self.availability),
    {
        self.availability.dup()
    }

    /// Refused when told to fail; otherwise the reader hands out the given lines, once.
    fn spawn(&mut self, keyfile: &str, interfaces: &Vec<String>) -> (r: Result<
        SpawnedTshark<FakeTsharkReader, FakeTsharkHandle>,
        String,
    >)
        ensures
            r is Ok <==> !old(self).fail_spawn,
            r matches Err(m) ==> m@ == "spawn tshark refusé (fake)"@,
            r is Err ==> final(self).lines@ == old(self).lines@,
            r matches Ok(s) ==> s.reader.spec_remaining() == strings_view(old(self).lines@)
                && !s.handle.stopped && final(self).lines@.len() == 0,
            availability_view(final(self).availability) == availability_view(old(self).availability),
            final(self).fail_spawn == old(self).fail_spawn,
    {
        if self.fail_spawn {
            return Err(owned("spawn tshark refusé (fake)"));
        }
        let mut lines: Vec<String> = Vec::new();
        std::mem::swap(&mut lines, &mut self.lines);
        Ok(
            SpawnedTshark {
                reader: FakeTsharkReader { lines, next: 0 },
                handle: FakeTsharkHandle { stopped: false },
            },
        )
    }
}

} // verus!
