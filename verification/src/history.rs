//! The behaviour of the dispatcher over whole runs.
//!
//! A run is a sequence of timed commands fed to the dispatcher in order.
//! This module defines the writes such a run produces on the child's
//! standard input and proves the two laws the design rests on: dispatched
//! reloads are always at least one debounce interval apart, and the key
//! bytes pass through exactly, in order, with nothing but reload sequences
//! interleaved.

use vstd::prelude::*;
use crate::command::{Command, reload_seq};
use crate::dispatch::Dispatcher;

verus! {

/// One command together with the clock reading at which it is dispatched.
#[derive(Clone, Copy, Debug, PartialEq, Eq, Structural)]
pub struct TimedCommand {
    /// Monotonic clock reading, in milliseconds.
    pub at: u64,
    /// The command handed to the dispatcher.
    pub cmd: Command,
}

/// The writes a run of commands produces on the child's standard input, in
/// order: each step contributes the bytes its dispatch returns, if any.
pub open spec fn run_writes(d: Dispatcher, evs: Seq<TimedCommand>) -> Seq<Seq<u8>>
    decreases evs.len(),
{
    if evs.len() == 0 {
        seq![]
    } else {
        let (d2, w) = d.spec_dispatch(evs[0].cmd, evs[0].at);
        (match w {
            Some(bytes) => seq![bytes],
            None => seq![],
        }) + run_writes(d2, evs.skip(1))
    }
}

/// The clock readings at which a run actually dispatches a reload.
pub open spec fn reload_times(d: Dispatcher, evs: Seq<TimedCommand>) -> Seq<u64>
    decreases evs.len(),
{
    if evs.len() == 0 {
        seq![]
    } else {
        let d2 = d.spec_dispatch(evs[0].cmd, evs[0].at).0;
        (if evs[0].cmd is Reload && d.due(evs[0].at) {
            seq![evs[0].at]
        } else {
            seq![]
        }) + reload_times(d2, evs.skip(1))
    }
}

/// The key bytes of a run, in order.
pub open spec fn key_bytes(evs: Seq<TimedCommand>) -> Seq<u8>
    decreases evs.len(),
{
    if evs.len() == 0 {
        seq![]
    } else {
        (match evs[0].cmd {
            Command::KeyInput(b) => seq![b],
            Command::Reload => seq![],
        }) + key_bytes(evs.skip(1))
    }
}

/// The single bytes among a sequence of writes, in order: each write of
/// length one contributes its byte.
pub open spec fn single_bytes(ws: Seq<Seq<u8>>) -> Seq<u8>
    decreases ws.len(),
{
    if ws.len() == 0 {
        seq![]
    } else {
        (if ws[0].len() == 1 {
            seq![ws[0][0]]
        } else {
            seq![]
        }) + single_bytes(ws.skip(1))
    }
}

/// The clock never runs backwards: each reading is at least `low`, and the
/// readings are nondecreasing.
pub open spec fn nondecreasing_from(low: u64, evs: Seq<TimedCommand>) -> bool
    decreases evs.len(),
{
    evs.len() == 0 || (evs[0].at >= low && nondecreasing_from(evs[0].at, evs.skip(1)))
}

/// Lowering the bound keeps a nondecreasing run nondecreasing.
proof fn lemma_nondecreasing_weaken(low: u64, lower: u64, evs: Seq<TimedCommand>)
    requires
        nondecreasing_from(low, evs),
        lower <= low,
    ensures
        nondecreasing_from(lower, evs),
{
}

/// Consecutive entries are at least `gap` apart.
pub open spec fn spaced(ts: Seq<u64>, gap: u64) -> bool
    decreases ts.len(),
{
    ts.len() <= 1 || (ts[1] >= ts[0] + gap && spaced(ts.skip(1), gap))
}

/// The debounce law, step by step. Over any run whose clock readings are
/// monotone and start no earlier than the dispatcher's `last_reload`, the
/// dispatched reloads are at least one debounce interval apart, and the
/// first of them comes at least one interval after `last_reload`.
pub proof fn lemma_debounce(d: Dispatcher, evs: Seq<TimedCommand>)
    requires
        nondecreasing_from(d.last_reload, evs),
    ensures
        spaced(reload_times(d, evs), d.debounce_ms),
        reload_times(d, evs).len() > 0
            ==> reload_times(d, evs)[0] >= d.last_reload + d.debounce_ms,
    decreases evs.len(),
{
    if evs.len() > 0 {
        let e = evs[0];
        let d2 = d.spec_dispatch(e.cmd, e.at).0;
        let rest = evs.skip(1);
        let ts = reload_times(d, evs);
        if e.cmd is Reload && d.due(e.at) {
            assert(d2.last_reload == e.at);
            lemma_debounce(d2, rest);
            let tail = reload_times(d2, rest);
            assert(ts =~= seq![e.at] + tail);
            assert(ts.skip(1) =~= tail);
            if tail.len() > 0 {
                assert(ts[1] == tail[0]);
                assert(tail[0] >= e.at + d.debounce_ms);
            }
        } else {
            assert(d2 == d);
            lemma_nondecreasing_weaken(e.at, d.last_reload, rest);
            lemma_debounce(d2, rest);
            assert(ts =~= reload_times(d2, rest));
        }
    }
}

/// A spaced sequence is nondecreasing.
proof fn lemma_spaced_monotone(ts: Seq<u64>, gap: u64)
    requires
        spaced(ts, gap),
    ensures
        forall|i: int, j: int| 0 <= i <= j < ts.len()
            ==> (#[trigger] ts[i]) <= (#[trigger] ts[j]),
    decreases ts.len(),
{
    if ts.len() > 1 {
        lemma_spaced_monotone(ts.skip(1), gap);
        assert forall|i: int, j: int| 0 <= i <= j < ts.len()
            implies (#[trigger] ts[i]) <= (#[trigger] ts[j]) by {
            if i == 0 {
                if j > 0 {
                    assert(ts.skip(1)[0] == ts[1]);
                    assert(ts.skip(1)[j - 1] == ts[j]);
                    assert(ts.skip(1)[0] <= ts.skip(1)[j - 1]);
                }
            } else {
                assert(ts.skip(1)[i - 1] == ts[i]);
                assert(ts.skip(1)[j - 1] == ts[j]);
                assert(ts.skip(1)[i - 1] <= ts.skip(1)[j - 1]);
            }
        }
    }
}

/// In a spaced sequence, any two entries, not only consecutive ones, are at
/// least `gap` apart.
pub proof fn lemma_spaced_apart(ts: Seq<u64>, gap: u64)
    requires
        spaced(ts, gap),
    ensures
        forall|i: int, j: int| 0 <= i < j < ts.len()
            ==> (#[trigger] ts[j]) - (#[trigger] ts[i]) >= gap,
    decreases ts.len(),
{
    if ts.len() > 1 {
        lemma_spaced_apart(ts.skip(1), gap);
        lemma_spaced_monotone(ts, gap);
        assert forall|i: int, j: int| 0 <= i < j < ts.len()
            implies (#[trigger] ts[j]) - (#[trigger] ts[i]) >= gap by {
            if i == 0 {
                assert(ts[1] <= ts[j]);
            } else {
                assert(ts.skip(1)[i - 1] == ts[i]);
                assert(ts.skip(1)[j - 1] == ts[j]);
                assert(ts.skip(1)[j - 1] - ts.skip(1)[i - 1] >= gap);
            }
        }
    }
}

/// The debounce law as stated of whole runs: for any two reloads dispatched
/// at clock readings `t1 < t2` over a run with a monotone clock, the
/// difference `t2 - t1` is at least the debounce interval.
pub proof fn lemma_debounce_apart(d: Dispatcher, evs: Seq<TimedCommand>)
    requires
        nondecreasing_from(d.last_reload, evs),
    ensures
        forall|i: int, j: int| 0 <= i < j < reload_times(d, evs).len()
            ==> (#[trigger] reload_times(d, evs)[j]) - (#[trigger] reload_times(d, evs)[i])
                >= d.debounce_ms,
{
    lemma_debounce(d, evs);
    lemma_spaced_apart(reload_times(d, evs), d.debounce_ms);
}

/// Coalescing. Two reload requests that fall within one debounce window of
/// each other produce at most one write, and exactly the reload sequence
/// when the first of them is due.
pub proof fn lemma_window_coalesces(d: Dispatcher, t1: u64, t2: u64)
    requires
        t1 <= t2,
        t2 - t1 < d.debounce_ms,
    ensures
        ({
            let evs = seq![
                TimedCommand { at: t1, cmd: Command::Reload },
                TimedCommand { at: t2, cmd: Command::Reload },
            ];
            &&& run_writes(d, evs).len() <= 1
            &&& d.due(t1) ==> run_writes(d, evs) == seq![reload_seq()]
        }),
{
    let evs = seq![
        TimedCommand { at: t1, cmd: Command::Reload },
        TimedCommand { at: t2, cmd: Command::Reload },
    ];
    reveal_with_fuel(run_writes, 3);
    let (d2, w1) = d.spec_dispatch(Command::Reload, t1);
    let rest = evs.skip(1);
    assert(rest =~= seq![TimedCommand { at: t2, cmd: Command::Reload }]);
    assert(rest.skip(1) =~= Seq::<TimedCommand>::empty());
    if d.due(t1) {
        assert(d2.last_reload == t1);
        assert(!d2.due(t2));
        assert(run_writes(d, evs) =~= seq![reload_seq()]);
    }
}

/// Order of a reload and a key. A due reload request followed by a key
/// input of byte `x` produces, in order, the reload sequence and then the
/// single byte `x`.
pub proof fn lemma_reload_then_key(d: Dispatcher, t1: u64, t2: u64, x: u8)
    requires
        d.due(t1),
    ensures
        run_writes(
            d,
            seq![
                TimedCommand { at: t1, cmd: Command::Reload },
                TimedCommand { at: t2, cmd: Command::KeyInput(x) },
            ],
        ) == seq![reload_seq(), seq![x]],
{
    let evs = seq![
        TimedCommand { at: t1, cmd: Command::Reload },
        TimedCommand { at: t2, cmd: Command::KeyInput(x) },
    ];
    reveal_with_fuel(run_writes, 3);
    let rest = evs.skip(1);
    assert(rest =~= seq![TimedCommand { at: t2, cmd: Command::KeyInput(x) }]);
    assert(rest.skip(1) =~= Seq::<TimedCommand>::empty());
    assert(run_writes(d, evs) =~= seq![reload_seq(), seq![x]]);
}

/// The pass-through law. Over any run, every write on the child's standard
/// input is either the reload sequence `r\n` or a single byte, and the
/// single bytes are exactly the run's key bytes, in order: no byte is
/// inserted or dropped other than reload sequences.
pub proof fn lemma_key_passthrough(d: Dispatcher, evs: Seq<TimedCommand>)
    ensures
        single_bytes(run_writes(d, evs)) == key_bytes(evs),
        forall|i: int| 0 <= i < run_writes(d, evs).len()
            ==> #[trigger] run_writes(d, evs)[i] == reload_seq()
                || run_writes(d, evs)[i].len() == 1,
    decreases evs.len(),
{
    if evs.len() > 0 {
        let e = evs[0];
        let (d2, w) = d.spec_dispatch(e.cmd, e.at);
        let rest = evs.skip(1);
        lemma_key_passthrough(d2, rest);
        let ws = run_writes(d, evs);
        let tail = run_writes(d2, rest);
        match w {
            Some(bytes) => {
                assert(ws =~= seq![bytes] + tail);
                assert(ws.skip(1) =~= tail);
                assert(single_bytes(ws) =~= (if bytes.len() == 1 {
                    seq![bytes[0]]
                } else {
                    seq![]
                }) + single_bytes(tail));
            },
            None => {
                assert(ws =~= tail);
            },
        }
        assert(single_bytes(ws) =~= key_bytes(evs));
    }
}

} // verus!
