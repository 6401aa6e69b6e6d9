//! Commands dispatched to the child process.

use vstd::prelude::*;

verus! {

/// A command for the supervisor: either a request to hot-reload the child,
/// or one raw byte from the terminal to forward to it verbatim.
#[derive(Clone, Copy, Debug, PartialEq, Eq, Structural)]
pub enum Command {
    Reload,
    KeyInput(u8),
}

/// The two-byte control sequence `r\n` that requests a hot reload on the
/// child's standard input.
pub open spec fn reload_seq() -> Seq<u8> {
    seq![114u8, 10u8]
}

/// Builds the reload control sequence `r\n` as concrete bytes.
pub fn reload_sequence() -> (r: Vec<u8>)
    ensures
        r@ == reload_seq(),
{
    let mut v: Vec<u8> = Vec::new();
    v.push(114);
    v.push(10);
    proof {
        assert(v@ =~= reload_seq());
    }
    v
}

} // verus!
