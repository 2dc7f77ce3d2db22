use vstd::prelude::*;

use crate::text::{same_str, views};

verus! {

/// The two build profiles.
#[derive(Clone, Copy, Debug, PartialEq, Eq, Structural)]
pub enum BuildProfile {
    Debug,
    Release,
}

/// Some element of `args` is exactly `--release`.
pub open spec fn has_release_flag(args: Seq<Seq<char>>) -> bool {
    exists|i: int| 0 <= i < args.len() && #[trigger] args[i] == "--release"@
}

/// The profile that a list of build arguments asks for.
pub open spec fn profile_of(args: Seq<Seq<char>>) -> BuildProfile {
    if has_release_flag(args) {
        BuildProfile::Release
    } else {
        BuildProfile::Debug
    }
}

pub open spec fn profile_name(p: BuildProfile) -> Seq<char> {
    match p {
        BuildProfile::Debug => "Debug"@,
        BuildProfile::Release => "Release"@,
    }
}

pub open spec fn profile_dir_name(p: BuildProfile) -> Seq<char> {
    match p {
        BuildProfile::Debug => "build_debug"@,
        BuildProfile::Release => "build_release"@,
    }
}

pub open spec fn profile_flag(p: BuildProfile) -> Seq<char> {
    match p {
        BuildProfile::Debug => "-DCMAKE_BUILD_TYPE=Debug"@,
        BuildProfile::Release => "-DCMAKE_BUILD_TYPE=Release"@,
    }
}

impl BuildProfile {
    /// `Debug` or `Release`.
    pub fn name(&self) -> (r: String)
        ensures
            r@ == profile_name(*self),
    {
        match self {
            BuildProfile::Debug => String::from_str("Debug"),
            BuildProfile::Release => String::from_str("Release"),
        }
    }

    /// The name of the build directory for this profile: `build_debug` or `build_release`.
    pub fn dir_name(&self) -> (r: String)
        ensures
            r@ == profile_dir_name(*self),
    {
        match self {
            BuildProfile::Debug => String::from_str("build_debug"),
            BuildProfile::Release => String::from_str("build_release"),
        }
    }

    /// The generator's definition that selects this profile.
    pub fn cmake_flag(&self) -> (r: String)
        ensures
            r@ == profile_flag(*self),
    {
        match self {
            BuildProfile::Debug => String::from_str("-DCMAKE_BUILD_TYPE=Debug"),
            BuildProfile::Release => String::from_str("-DCMAKE_BUILD_TYPE=Release"),
        }
    }
}

/// Release when some argument is exactly `--release`, Debug otherwise.
pub fn resolve_profile(args: &Vec<String>) -> (r: BuildProfile)
    ensures
        r == profile_of(views(args@)),
{
    let mut i: usize = 0;
    while i < args.len()
        invariant
            i <= args@.len(),
            forall|k: int| 0 <= k < i ==> args@[k]@ != "--release"@,
        decreases args@.len() - i,
    {
        if same_str(args[i].as_str(), "--release") {
            assert(views(args@)[i as int] == "--release"@);
            return BuildProfile::Release;
        }
        i += 1;
    }
    assert(!has_release_flag(views(args@)));
    BuildProfile::Debug
}

/// The profile depends only on which arguments occur, not on their order or repetition.
pub proof fn lemma_profile_ignores_order(a: Seq<Seq<char>>, b: Seq<Seq<char>>)
    requires
        a.to_set() == b.to_set(),
    ensures
        profile_of(a) == profile_of(b),
{
    if has_release_flag(a) {
        let i = choose|i: int| 0 <= i < a.len() && #[trigger] a[i] == "--release"@;
        assert(a.to_set().contains(a[i]));
        assert(b.to_set().contains("--release"@));
    }
    if has_release_flag(b) {
        let i = choose|i: int| 0 <= i < b.len() && #[trigger] b[i] == "--release"@;
        assert(b.to_set().contains(b[i]));
        assert(a.to_set().contains("--release"@));
    }
}

/// The build arguments without a leading `hdk`, the subcommand's own name.
pub open spec fn forwarded(args: Seq<Seq<char>>) -> Seq<Seq<char>> {
    if args.len() > 0 && args[0] == "hdk"@ {
        args.drop_first()
    } else {
        args
    }
}

/// Appends copies of `src[from..]` to `dst`.
fn extend_from(dst: &mut Vec<String>, src: &Vec<String>, from: usize)
    requires
        from <= src@.len(),
    ensures
        views(final(dst)@) == views(old(dst)@) + views(src@).subrange(from as int, src@.len() as int),
{
    let ghost start = views(dst@);
    let mut i: usize = from;
    while i < src.len()
        invariant
            from <= i <= src@.len(),
            views(dst@) == start + views(src@).subrange(from as int, i as int),
        decreases src@.len() - i,
    {
        let ghost prev = dst@;
        dst.push(src[i].clone());
        assert(views(dst@) =~= views(prev).push(src@[i as int]@));
        assert(views(src@).subrange(from as int, i + 1) =~= views(src@).subrange(from as int, i as int).push(src@[i as int]@));
        i += 1;
    }
}

/// The build arguments to hand on to the package manager.
pub fn forwarded_args(args: &Vec<String>) -> (r: Vec<String>)
    ensures
        views(r@) == forwarded(views(args@)),
{
    let mut r: Vec<String> = Vec::new();
    let from: usize = if args.len() > 0 && same_str(args[0].as_str(), "hdk") { 1 } else { 0 };
    extend_from(&mut r, args, from);
    assert(views(r@) =~= forwarded(views(args@)));
    r
}

/// The package manager's arguments: `clean` and the forwarded arguments, or `build`,
/// the request for a machine-readable event stream, and the forwarded arguments.
pub open spec fn cargo_args_of(args: Seq<Seq<char>>, clean: bool) -> Seq<Seq<char>> {
    if clean {
        seq!["clean"@] + forwarded(args)
    } else {
        seq!["build"@, "--message-format=json"@] + forwarded(args)
    }
}

pub fn cargo_args(args: &Vec<String>, clean: bool) -> (r: Vec<String>)
    ensures
        views(r@) == cargo_args_of(views(args@), clean),
{
    let mut r: Vec<String> = Vec::new();
    if clean {
        r.push(String::from_str("clean"));
    } else {
        r.push(String::from_str("build"));
        r.push(String::from_str("--message-format=json"));
    }
    let fwd = forwarded_args(args);
    extend_from(&mut r, &fwd, 0);
    assert(views(fwd@).subrange(0, fwd@.len() as int) =~= views(fwd@));
    assert(views(r@) =~= cargo_args_of(views(args@), clean));
    r
}

/// The generator's configure arguments: the parent directory as the source, the
/// extra arguments, and the profile's definition.
pub open spec fn configure_args_of(extra: Seq<Seq<char>>, p: BuildProfile) -> Seq<Seq<char>> {
    seq![".."@] + extra + seq![profile_flag(p)]
}

pub fn configure_args(extra: &Vec<String>, p: BuildProfile) -> (r: Vec<String>)
    ensures
        views(r@) == configure_args_of(views(extra@), p),
{
    let mut r: Vec<String> = Vec::new();
    r.push(String::from_str(".."));
    extend_from(&mut r, extra, 0);
    assert(views(extra@).subrange(0, extra@.len() as int) =~= views(extra@));
    let f = p.cmake_flag();
    let ghost prev = r@;
    r.push(f);
    assert(views(r@) =~= views(prev).push(f@));
    assert(views(r@) =~= configure_args_of(views(extra@), p));
    r
}

/// The generator's build arguments: build the current directory.
pub open spec fn native_build_args_of() -> Seq<Seq<char>> {
    seq!["--build"@, "."@]
}

pub fn native_build_args() -> (r: Vec<String>)
    ensures
        views(r@) == native_build_args_of(),
{
    let mut r: Vec<String> = Vec::new();
    r.push(String::from_str("--build"));
    r.push(String::from_str("."));
    assert(views(r@) =~= native_build_args_of());
    r
}

} // verus!
