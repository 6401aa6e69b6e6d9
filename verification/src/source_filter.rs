//! The source-file filter of the watcher.
//!
//! A filesystem notification triggers a reload only when its first affected
//! path names a source file, which here means: the file extension equals
//! `dart`. Paths are handled as raw bytes; the extension is read off the
//! final path component exactly as the platform's path type does for
//! ordinary paths: the bytes after the last `.` of the component, provided
//! that `.` is not the component's first byte.

use vstd::prelude::*;
use crate::command::Command;

verus! {

/// Path separator byte `/`.
pub const SEPARATOR: u8 = 47;

/// Extension delimiter byte `.`.
pub const DOT: u8 = 46;

/// The extension found by scanning `p[..i]` from the right, where the bytes
/// from `i` on have already been scanned without meeting a `.` or a `/`:
/// a `.` at `i - 1` that does not open the final component yields the bytes
/// after it; a `/`, or the start of the path, yields none.
pub open spec fn extension_from(p: Seq<u8>, i: int) -> Option<Seq<u8>>
    decreases i,
{
    if i <= 0 || i > p.len() {
        None
    } else if p[i - 1] == DOT {
        if i - 1 > 0 && p[i - 2] != SEPARATOR {
            Some(p.skip(i))
        } else {
            None
        }
    } else if p[i - 1] == SEPARATOR {
        None
    } else {
        extension_from(p, i - 1)
    }
}

/// The extension of the path `p`, if its final component has one.
pub open spec fn extension_of(p: Seq<u8>) -> Option<Seq<u8>> {
    extension_from(p, p.len() as int)
}

/// The configured source extension: `dart`.
pub open spec fn source_extension() -> Seq<u8> {
    seq![100u8, 97u8, 114u8, 116u8]
}

/// Whether a change to `p` must trigger a reload.
pub open spec fn is_source_path(p: Seq<u8>) -> bool {
    extension_of(p) == Some(source_extension())
}

/// Decides whether the path `p` names a source file: true exactly when its
/// extension is `dart`.
pub fn path_triggers_reload(p: &[u8]) -> (r: bool)
    ensures
        r == is_source_path(p@),
{
    let mut i: usize = p.len();
    loop
        invariant
            i <= p.len(),
            extension_of(p@) == extension_from(p@, i as int),
        decreases i,
    {
        if i == 0 {
            return false;
        }
        let b = p[i - 1];
        if b == DOT {
            if i - 1 > 0 && p[i - 2] != SEPARATOR {
                let r = p.len() - i == 4
                    && p[i] == 100 && p[i + 1] == 97 && p[i + 2] == 114 && p[i + 3] == 116;
                proof {
                    if r {
                        assert(p@.skip(i as int) =~= source_extension());
                    } else {
                        assert(p@.skip(i as int) != source_extension()) by {
                            if p@.skip(i as int).len() == 4 {
                                assert(p@.skip(i as int)[0] == p@[i as int]);
                                assert(p@.skip(i as int)[1] == p@[i + 1]);
                                assert(p@.skip(i as int)[2] == p@[i + 2]);
                                assert(p@.skip(i as int)[3] == p@[i + 3]);
                            }
                        }
                    }
                }
                return r;
            } else {
                return false;
            }
        }
        if b == SEPARATOR {
            return false;
        }
        i = i - 1;
    }
}

/// The command a notification gives rise to: a reload exactly when the event
/// carries at least one path and the first one names a source file.
pub open spec fn spec_watch_command(paths: Seq<Seq<u8>>) -> Option<Command> {
    if paths.len() > 0 && is_source_path(paths[0]) {
        Some(Command::Reload)
    } else {
        None
    }
}

/// Translates one filesystem notification, given as its affected paths, into
/// at most one command: `Reload` iff the first path names a source file.
/// Events with no paths, and events whose first path does not, are dropped.
pub fn watch_command(paths: &Vec<Vec<u8>>) -> (c: Option<Command>)
    ensures
        c == spec_watch_command(paths@.map_values(|q: Vec<u8>| q@)),
{
    if paths.len() > 0 {
        if path_triggers_reload(paths[0].as_slice()) {
            return Some(Command::Reload);
        }
    }
    None
}

/// A notification whose first path's extension is not the configured source
/// extension never causes a reload; nor does one with no paths at all.
pub proof fn lemma_extension_filter(paths: Seq<Seq<u8>>)
    requires
        paths.len() == 0 || !is_source_path(paths[0]),
    ensures
        spec_watch_command(paths) is None,
{
}

} // verus!
