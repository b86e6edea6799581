//! What the program says of how it was built.

use vstd::prelude::*;

verus! {

/// What is said of a build.
pub open spec fn build_info(
    version: Seq<char>,
    commit: Seq<char>,
    compiler: Seq<char>,
    target: Seq<char>,
    profile: Seq<char>,
    features: Seq<char>,
) -> Seq<char> {
    "Crate version "@ + version + ".\nBuilt from commit "@ + commit + " by "@ + compiler
        + " for target "@ + target + " with profile '"@ + profile + "' and features = "@
        + features + "."@
}

/// What is said of a build: the version of the crate, the commit it was built
/// from, the compiler that built it, and the target, the profile and the
/// features it was built for.
pub fn dbg_info(
    version: &str,
    commit: &str,
    compiler: &str,
    target: &str,
    profile: &str,
    features: &str,
) -> (info: String)
    ensures
        info@ == build_info(version@, commit@, compiler@, target@, profile@, features@),
{
    let mut info = String::from_str("Crate version ");
    info.append(version);
    info.append(".\nBuilt from commit ");
    info.append(commit);
    info.append(" by ");
    info.append(compiler);
    info.append(" for target ");
    info.append(target);
    info.append(" with profile '");
    info.append(profile);
    info.append("' and features = ");
    info.append(features);
    info.append(".");
    info
}

} // verus!
