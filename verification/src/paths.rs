//! Where the platform's directories are: the fallback rules from an
//! environment override to a place under the user's home directory. The
//! caller reads the environment and the home directory and hands them in.

use vstd::prelude::*;

use crate::strutil::{path_join, spec_path_join};

verus! {

/// The directory an environment override names, or the suffix under the
/// home directory, or under `/root` for a user without a home.
pub open spec fn spec_dir_from_env(
    env_value: Option<String>,
    home: Option<String>,
    suffix: Seq<char>,
) -> Seq<char> {
    match env_value {
        Some(p) => p@,
        None => spec_path_join(
            match home {
                Some(h) => h@,
                None => "/root"@,
            },
            suffix,
        ),
    }
}

/// Get a dir from an env var's value and a subpath under the home directory.
pub fn dir_from_env(env_value: Option<String>, home: Option<String>, suffix: &str) -> (r: String)
    ensures
        r@ == spec_dir_from_env(env_value, home, suffix@),
{
    match env_value {
        Some(p) => p,
        None => {
            let base = match home {
                Some(h) => h,
                None => "/root".to_owned(),
            };
            path_join(base.as_str(), suffix)
        },
    }
}

/// Where the platform keeps the local client's data files.
pub fn juju_data_dir(env_value: Option<String>, home: Option<String>) -> (r: String)
    ensures
        r@ == spec_dir_from_env(env_value, home, ".local/share/juju"@),
{
    dir_from_env(env_value, home, ".local/share/juju")
}

/// Where built charms are placed: an explicit override, else a `builds`
/// directory under the repository override, else a fixed temporary place.
pub fn charm_build_dir(build_env: Option<String>, repository_env: Option<String>) -> (r: String)
    ensures
        r@ == (match (build_env, repository_env) {
            (Some(p), _) => p@,
            (None, Some(rp)) => spec_path_join(rp@, "builds"@),
            (None, None) => "/tmp/charm-builds"@,
        }),
{
    match (build_env, repository_env) {
        (Some(p), _) => p,
        (Option::None, Some(rp)) => path_join(rp.as_str(), "builds"),
        (Option::None, Option::None) => "/tmp/charm-builds".to_owned(),
    }
}

/// Where charm sources are looked for when a bundle names one by a bare
/// name.
pub fn charm_source_dir(env_value: Option<String>, home: Option<String>) -> (r: String)
    ensures
        r@ == spec_dir_from_env(env_value, home, "charms/source"@),
{
    dir_from_env(env_value, home, "charms/source")
}

/// Where one charm's build cache lives, named after the charm.
pub fn charm_cache_dir(env_value: Option<String>, home: Option<String>, charm_name: &str) -> (r:
    String)
    ensures
        r@ == spec_dir_from_env(env_value, home, ".cache/charm"@ + seq!['/'] + charm_name@),
{
    let suffix = path_join(".cache/charm", charm_name);
    proof {
        reveal_strlit(".cache/charm");
        assert(suffix@ =~= ".cache/charm"@ + seq!['/'] + charm_name@);
    }
    dir_from_env(env_value, home, suffix.as_str())
}

} // verus!
