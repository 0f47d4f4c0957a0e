//! The command line of `cargo cmake-bridge`, as plain values.

use vstd::prelude::*;
use crate::text::str_eq;

verus! {

/// The parsed command line.
#[derive(Debug)]
pub struct CliArgs {
    /// Path to the crate's Cargo.toml
    pub manifest_path: String,
    /// Cargo target directory (defaults to `cargo metadata`'s reported value)
    pub target_dir: Option<String>,
    /// Build profile to look up artifacts in
    pub profile: String,
    /// Directory to write the generated Find<Crate>.cmake into
    pub out_dir: String,
    /// Select a package by name; repeatable to generate several at once
    /// (defaults to the manifest's root package if omitted)
    pub crate_names: Vec<String>,
    /// Generate a Find<Crate>.cmake for every workspace member that has a
    /// staticlib or cdylib target
    pub all: bool,
    /// Run `cbindgen` to (re)generate the C header before locating it
    pub generate_header: bool,
}

/// The arguments that are handed to the parser: cargo invokes us as
/// `cargo-cmake-bridge cmake-bridge <args>`, so the injected subcommand
/// token, and only it, is dropped.
pub open spec fn without_subcommand(args: Seq<Seq<char>>) -> Seq<Seq<char>> {
    if args.len() > 1 && args[1] == "cmake-bridge"@ {
        args.remove(1)
    } else {
        args
    }
}

/// Drops the subcommand token that cargo inserts as the second argument.
pub fn strip_subcommand(args: Vec<String>) -> (res: Vec<String>)
    ensures
        res@.map_values(|s: String| s@) == without_subcommand(args@.map_values(|s: String| s@)),
{
    let mut args = args;
    if args.len() > 1 && str_eq(args[1].as_str(), "cmake-bridge") {
        let ghost before = args@;
        let _ = args.remove(1);
        assert(args@.map_values(|s: String| s@) =~= before.map_values(|s: String| s@).remove(1));
    }
    args
}

} // verus!
