//! The debounce policy and the command dispatcher.
//!
//! The dispatcher decides, for each command and a reading of a monotonic
//! millisecond clock, which bytes must be written to the child's standard
//! input. It owns the `last_reload` timestamp: a reload request is honoured
//! only when at least the debounce interval has elapsed since the last
//! reload that was actually dispatched, and `last_reload` is updated only
//! on a dispatch, never on a suppression. Key input is never debounced.

use vstd::prelude::*;
use crate::command::{Command, reload_seq, reload_sequence};

verus! {

/// The supervisor's decision state: when the last reload was dispatched and
/// how long the debounce window is, both in milliseconds.
#[derive(Clone, Copy, Debug, PartialEq, Eq, Structural)]
pub struct Dispatcher {
    /// Clock reading at which the most recent reload was dispatched; starts
    /// at the supervisor's construction time, so the first reload request is
    /// itself subject to the debounce.
    pub last_reload: u64,
    /// Minimum elapsed time between two dispatched reloads.
    pub debounce_ms: u64,
}

impl Dispatcher {
    /// A reload is due at `now` when the debounce window has fully elapsed.
    pub open spec fn due(self, now: u64) -> bool {
        now >= self.last_reload && now - self.last_reload >= self.debounce_ms
    }

    /// The step function of the dispatcher: the successor state and the bytes
    /// (if any) to write to the child for one command at clock reading `now`.
    pub open spec fn spec_dispatch(self, cmd: Command, now: u64) -> (Dispatcher, Option<Seq<u8>>) {
        match cmd {
            Command::Reload => {
                if self.due(now) {
                    (Dispatcher { last_reload: now, debounce_ms: self.debounce_ms },
                     Some(reload_seq()))
                } else {
                    (self, None)
                }
            },
            Command::KeyInput(b) => (self, Some(seq![b])),
        }
    }

    /// Creates a dispatcher at startup time `start_ms` with the configured
    /// debounce interval.
    pub fn new(start_ms: u64, debounce_ms: u64) -> (d: Self)
        ensures
            d.last_reload == start_ms,
            d.debounce_ms == debounce_ms,
    {
        Dispatcher { last_reload: start_ms, debounce_ms }
    }

    /// Decides one command: returns the bytes to write to the child's
    /// standard input, or `None` when a reload request is suppressed by the
    /// debounce. Exactly `spec_dispatch`, stated clause by clause:
    /// a due reload yields `r\n` and moves `last_reload` to `now`; a reload
    /// inside the window changes nothing and writes nothing; a key byte is
    /// always forwarded alone and leaves the state untouched.
    pub fn dispatch(&mut self, cmd: Command, now: u64) -> (out: Option<Vec<u8>>)
        ensures
            *final(self) == old(self).spec_dispatch(cmd, now).0,
            (match out {
                Some(v) => Some(v@),
                None => None,
            }) == old(self).spec_dispatch(cmd, now).1,
            final(self).debounce_ms == old(self).debounce_ms,
            final(self).last_reload >= old(self).last_reload,
            cmd is Reload && old(self).due(now) ==> final(self).last_reload == now,
            cmd is Reload && !old(self).due(now) ==> out is None && *final(self) == *old(self),
            cmd matches Command::KeyInput(b) ==> out matches Some(v) && v@ == seq![b]
                && *final(self) == *old(self),
    {
        match cmd {
            Command::Reload => {
                let due = now >= self.last_reload && now - self.last_reload >= self.debounce_ms;
                if due {
                    self.last_reload = now;
                    Some(reload_sequence())
                } else {
                    None
                }
            },
            Command::KeyInput(b) => {
                let mut v: Vec<u8> = Vec::new();
                v.push(b);
                proof {
                    assert(v@ =~= seq![b]);
                }
                Some(v)
            },
        }
    }
}

/// One round of the event loop's fan-in: given the command derived from a
/// pending watcher event (if any) and a pending key byte (if any), the
/// commands to dispatch this iteration, watcher first. This is the fixed
/// bias of the loop: when both streams are ready, the reload goes first.
pub open spec fn spec_polled_commands(watch_cmd: Option<Command>, key: Option<u8>) -> Seq<Command> {
    (match watch_cmd {
        Some(c) => seq![c],
        None => seq![],
    }) + (match key {
        Some(b) => seq![Command::KeyInput(b)],
        None => seq![],
    })
}

/// Orders one iteration's pending events for dispatch: the watcher-derived
/// command, then the key byte, each only if present.
pub fn polled_commands(watch_cmd: Option<Command>, key: Option<u8>) -> (cmds: Vec<Command>)
    ensures
        cmds@ == spec_polled_commands(watch_cmd, key),
{
    let mut cmds: Vec<Command> = Vec::new();
    if let Some(c) = watch_cmd {
        cmds.push(c);
    }
    if let Some(b) = key {
        cmds.push(Command::KeyInput(b));
    }
    proof {
        assert(cmds@ =~= spec_polled_commands(watch_cmd, key));
    }
    cmds
}

} // verus!
