use vstd::prelude::*;

use crate::command::{profile_dir_name, BuildProfile};

verus! {

/// The path that camino's `Utf8Path::join` makes of `base` and `rel`.
pub uninterp spec fn joined(base: Seq<char>, rel: Seq<char>) -> Seq<char>;

/// Relies on `Utf8Path::join` of camino, as cargo_metadata re-exports it: `rel` appended
/// to `base`, or `rel` alone where it is absolute.
#[verifier::external_body]
pub(crate) fn join_path(base: &str, rel: &str) -> (r: String)
    ensures
        r@ == joined(base@, rel@),
{
    cargo_metadata::camino::Utf8Path::new(base).join(rel).into_string()
}

/// The build directory: the plugin path under the project root, then the profile's
/// directory under that.
pub open spec fn build_dir_of(root: Seq<char>, hdk_path: Seq<char>, p: BuildProfile) -> Seq<char> {
    joined(joined(root, hdk_path), profile_dir_name(p))
}

pub fn build_dir(root: &str, hdk_path: &str, p: BuildProfile) -> (r: String)
    ensures
        r@ == build_dir_of(root@, hdk_path@, p),
{
    let plugin = join_path(root, hdk_path);
    let dir = p.dir_name();
    join_path(plugin.as_str(), dir.as_str())
}

/// The name of the file that holds a dependency's output directory: the prefix, the
/// dependency's name, and `.txt`.
pub open spec fn cache_file_name(prefix: Seq<char>, name: Seq<char>) -> Seq<char> {
    prefix + name + ".txt"@
}

/// Where the file that holds a dependency's output directory stands: its name joined
/// onto the build directory.
pub open spec fn cache_path_of(build_dir: Seq<char>, prefix: Seq<char>, name: Seq<char>) -> Seq<char> {
    joined(build_dir, cache_file_name(prefix, name))
}

pub fn cache_path(build_dir: &str, prefix: &str, name: &str) -> (r: String)
    ensures
        r@ == cache_path_of(build_dir@, prefix@, name@),
{
    let file = String::from_str(prefix).concat(name).concat(".txt");
    join_path(build_dir, file.as_str())
}

} // verus!
