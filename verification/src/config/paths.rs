//! Filesystem locations derived from the XDG base directories.

use vstd::prelude::*;

use crate::text::{chars_of, push_char, push_str};

verus! {

/// Resolved filesystem locations the program reads or writes.
#[derive(Debug)]
pub struct Paths {
    pub config_file: String,
    pub config_dir: String,
    pub cache_dir: String,
    pub log_dir: String,
}

/// `base` joined with the relative path `rel`, as `Path::join` does: a `/`
/// goes between them unless `base` is empty or already ends with one.
pub open spec fn path_join(base: Seq<char>, rel: Seq<char>) -> Seq<char> {
    if base.len() == 0 || base.last() == '/' {
        base + rel
    } else {
        base + seq!['/'] + rel
    }
}

/// Joins `base` and the relative path `rel`.
pub fn join_path(base: &str, rel: &str) -> (r: String)
    ensures
        r@ == path_join(base@, rel@),
{
    let v = chars_of(base);
    let mut out = String::from_str(base);
    if v.len() > 0 && v[v.len() - 1] != '/' {
        push_char(&mut out, '/');
    }
    push_str(&mut out, rel);
    out
}

impl Paths {
    /// Locations for the directories the platform reports for the program:
    /// the config file `config.toml` in the config directory, and logs in
    /// `logs` under the state directory when there is one, else under the
    /// local data directory.
    pub fn resolve(
        config_dir: &str,
        cache_dir: &str,
        state_dir: Option<&str>,
        data_local_dir: &str,
    ) -> (r: Paths)
        ensures
            r.config_file@ == path_join(config_dir@, "config.toml"@),
            r.config_dir@ == config_dir@,
            r.cache_dir@ == cache_dir@,
            r.log_dir@ == path_join(
                match state_dir {
                    Some(s) => s@,
                    None => data_local_dir@,
                },
                "logs"@,
            ),
    {
        let log_base = match state_dir {
            Some(s) => s,
            None => data_local_dir,
        };
        Paths {
            config_file: join_path(config_dir, "config.toml"),
            config_dir: String::from_str(config_dir),
            cache_dir: String::from_str(cache_dir),
            log_dir: join_path(log_base, "logs"),
        }
    }

    /// Paths that are all empty, for settings not tied to a location.
    pub fn empty() -> (r: Paths)
        ensures
            r.config_file@.len() == 0,
            r.config_dir@.len() == 0,
            r.cache_dir@.len() == 0,
            r.log_dir@.len() == 0,
    {
        Paths {
            config_file: String::new(),
            config_dir: String::new(),
            cache_dir: String::new(),
            log_dir: String::new(),
        }
    }
}

} // verus!
