//! The startup configuration and the child's argument list.
//!
//! Configuration is built once at startup and never mutated afterwards. The
//! one piece of logic here is the mapping from configuration to the child's
//! command line: `run`, then the device id, the flavor and the build mode
//! flag where set, then the pass-through arguments, in that order.

use vstd::prelude::*;

verus! {

/// The child's build mode. At most one of profile and release can be chosen;
/// debug is the default.
#[derive(Clone, Copy, Debug, PartialEq, Eq, Structural)]
pub enum BuildMode {
    Debug,
    Profile,
    Release,
}

/// The tool's configuration, immutable after startup.
pub struct Config {
    /// The project directory, root of the recursive watch and working
    /// directory of the child.
    pub project_path: String,
    /// Device to run on, forwarded as `--device-id <id>` when set.
    pub device_id: Option<String>,
    /// Build flavor, forwarded as `--flavor <name>` when set.
    pub flavor: Option<String>,
    /// Build mode; emits `--release` or `--profile`, nothing for debug.
    pub mode: BuildMode,
    /// Debounce interval for reloads, in milliseconds.
    pub debounce_ms: u64,
    /// Arguments forwarded verbatim to the child, after everything else.
    pub extra_args: Vec<String>,
}

/// Resolves the two mode flags: release wins over profile, debug when
/// neither is set.
pub open spec fn spec_resolve_mode(release: bool, profile: bool) -> BuildMode {
    if release {
        BuildMode::Release
    } else if profile {
        BuildMode::Profile
    } else {
        BuildMode::Debug
    }
}

/// Turns the release and profile flags into a build mode; when both are set,
/// release wins.
pub fn resolve_mode(release: bool, profile: bool) -> (m: BuildMode)
    ensures
        m == spec_resolve_mode(release, profile),
{
    if release {
        BuildMode::Release
    } else if profile {
        BuildMode::Profile
    } else {
        BuildMode::Debug
    }
}

/// The arguments the mode contributes to the child's command line.
pub open spec fn spec_mode_args(m: BuildMode) -> Seq<Seq<char>> {
    match m {
        BuildMode::Release => seq!["--release"@],
        BuildMode::Profile => seq!["--profile"@],
        BuildMode::Debug => seq![],
    }
}

/// The arguments an optional flag-with-value contributes: the flag then the
/// value when set, nothing otherwise.
pub open spec fn spec_option_args(flag: Seq<char>, v: Option<String>) -> Seq<Seq<char>> {
    match v {
        Some(s) => seq![flag, s@],
        None => seq![],
    }
}

/// The child's full argument list for a configuration: `run`, the device id,
/// the flavor, the mode flag, then the pass-through arguments.
pub open spec fn spec_child_args(c: Config) -> Seq<Seq<char>> {
    seq!["run"@]
        + spec_option_args("--device-id"@, c.device_id)
        + spec_option_args("--flavor"@, c.flavor)
        + spec_mode_args(c.mode)
        + c.extra_args@.map_values(|a: String| a@)
}

/// Mapping the views commutes with appending one string.
proof fn lemma_views_push(s: Seq<String>, x: String)
    ensures
        s.push(x).map_values(|a: String| a@) == s.map_values(|a: String| a@).push(x@),
{
    let lhs = s.push(x).map_values(|a: String| a@);
    let rhs = s.map_values(|a: String| a@).push(x@);
    assert forall|i: int| 0 <= i < lhs.len() implies #[trigger] lhs[i] == rhs[i] by {
        if i < s.len() {
            assert(s.push(x)[i] == s[i]);
        } else {
            assert(s.push(x)[i] == x);
        }
    }
    assert(lhs =~= rhs);
}

/// Appends one argument, tracked at the level of the argument views.
fn push_arg(args: &mut Vec<String>, arg: String)
    ensures
        final(args)@.map_values(|a: String| a@)
            == old(args)@.map_values(|a: String| a@).push(arg@),
{
    let ghost pre = args@;
    let ghost pushed = arg;
    args.push(arg);
    proof {
        lemma_views_push(pre, pushed);
    }
}

/// Assembles the child's argument list from the configuration, in the fixed
/// order `run`, `--device-id <id>`, `--flavor <name>`, the mode flag, then
/// the pass-through arguments.
pub fn child_args(c: &Config) -> (args: Vec<String>)
    ensures
        args@.map_values(|a: String| a@) == spec_child_args(*c),
{
    let ghost prefix = seq!["run"@]
        + spec_option_args("--device-id"@, c.device_id)
        + spec_option_args("--flavor"@, c.flavor)
        + spec_mode_args(c.mode);
    let mut args: Vec<String> = Vec::new();
    proof {
        assert(args@.map_values(|a: String| a@) =~= Seq::<Seq<char>>::empty());
    }
    push_arg(&mut args, String::from_str("run"));
    match &c.device_id {
        Some(d) => {
            push_arg(&mut args, String::from_str("--device-id"));
            push_arg(&mut args, d.clone());
        },
        None => {},
    }
    match &c.flavor {
        Some(f) => {
            push_arg(&mut args, String::from_str("--flavor"));
            push_arg(&mut args, f.clone());
        },
        None => {},
    }
    match c.mode {
        BuildMode::Release => push_arg(&mut args, String::from_str("--release")),
        BuildMode::Profile => push_arg(&mut args, String::from_str("--profile")),
        BuildMode::Debug => {},
    }
    proof {
        assert(args@.map_values(|a: String| a@) =~= prefix);
    }
    let mut k: usize = 0;
    while k < c.extra_args.len()
        invariant
            k <= c.extra_args.len(),
            args@.map_values(|a: String| a@)
                == prefix + c.extra_args@.take(k as int).map_values(|a: String| a@),
        decreases c.extra_args.len() - k,
    {
        push_arg(&mut args, c.extra_args[k].clone());
        proof {
            assert(c.extra_args@.take(k as int + 1)
                =~= c.extra_args@.take(k as int).push(c.extra_args@[k as int]));
            lemma_views_push(c.extra_args@.take(k as int), c.extra_args@[k as int]);
            assert(args@.map_values(|a: String| a@)
                =~= prefix + c.extra_args@.take(k as int + 1).map_values(|a: String| a@));
        }
        k = k + 1;
    }
    proof {
        assert(c.extra_args@.take(c.extra_args@.len() as int) =~= c.extra_args@);
        assert(args@.map_values(|a: String| a@) =~= spec_child_args(*c));
    }
    args
}

/// The path of the project manifest that must exist before the child is
/// spawned: `pubspec.yaml` inside the project directory.
pub fn manifest_path(project_path: &str) -> (p: String)
    ensures
        p@ == project_path@ + "/pubspec.yaml"@,
{
    let mut p = String::from_str(project_path);
    p.append("/pubspec.yaml");
    p
}

} // verus!
