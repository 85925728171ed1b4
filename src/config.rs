//! Where a run finds its profile and resources.
use vstd::prelude::*;
use vstd::string::*;

use crate::paths::{path_join, path_join_spec};

verus! {

/// How the exports are printed.
#[derive(Debug, Clone, Copy, PartialEq, Eq, Structural)]
pub enum OutputMode {
    Shell,
    Json,
}

/// How log lines are written.
#[derive(Debug, Clone, Copy, PartialEq, Eq, Structural)]
pub enum LogFormat {
    Text,
    Json,
}

/// The environment variables that locate the profile and resources.
#[derive(Debug, Clone)]
pub struct RawEnv {
    pub home: Option<String>,
    pub envlock_home: Option<String>,
    pub envlock_resource_home: Option<String>,
}

/// The locations a run uses.
#[derive(Debug, Clone)]
pub struct Locations {
    pub envlock_home: String,
    pub resource_home: String,
    pub profile_path: String,
}

/// The default home of envlock: `.envlock` under the user's home, or
/// `~/.envlock` when the home is unknown.
pub open spec fn default_home_spec(home: Option<Seq<char>>) -> Seq<char> {
    match home {
        Some(h) => path_join_spec(h, ".envlock"@),
        None => "~/.envlock"@,
    }
}

pub fn default_envlock_home(home: Option<&String>) -> (r: String)
    ensures
        r@ == default_home_spec(
            match home {
                Some(h) => Some(h@),
                None => None,
            },
        ),
{
    match home {
        Some(h) => path_join(h.as_str(), ".envlock"),
        None => String::from_str("~/.envlock"),
    }
}

/// Resolves the locations of a run: `ENVLOCK_HOME` or the default home;
/// `ENVLOCK_RESOURCE_HOME` or `resources` under the home; the given profile
/// or `profiles/default.json` under the home.
pub fn resolve_locations(profile: Option<String>, env: &RawEnv) -> (r: Locations)
    ensures
        r.envlock_home@ == (match env.envlock_home {
            Some(h) => h@,
            None => default_home_spec(
                match env.home {
                    Some(h) => Some(h@),
                    None => None,
                },
            ),
        }),
        r.resource_home@ == (match env.envlock_resource_home {
            Some(h) => h@,
            None => path_join_spec(r.envlock_home@, "resources"@),
        }),
        r.profile_path@ == (match profile {
            Some(p) => p@,
            None => path_join_spec(r.envlock_home@, "profiles/default.json"@),
        }),
{
    let envlock_home = match &env.envlock_home {
        Some(h) => h.clone(),
        None => default_envlock_home(env.home.as_ref()),
    };
    let resource_home = match &env.envlock_resource_home {
        Some(h) => h.clone(),
        None => path_join(envlock_home.as_str(), "resources"),
    };
    let profile_path = match profile {
        Some(p) => p,
        None => path_join(envlock_home.as_str(), "profiles/default.json"),
    };
    Locations { envlock_home, resource_home, profile_path }
}

} // verus!
