use vstd::prelude::*;
use crate::text::same_text;

verus! {

/// Where the shared package cache lives.
#[derive(Debug, Clone, PartialEq)]
pub struct Config {
    pub cache_dir: String,
}

/// Relies on `dirs::home_dir`: the current user's home directory, as text;
/// `None` where it is unknown or not UTF-8. It depends on the environment, so
/// nothing is promised of it.
#[verifier::external_body]
fn home_dir() -> (r: Option<String>) {
    match dirs::home_dir() {
        Some(p) => match p.to_str() {
            Some(s) => Some(s.to_owned()),
            None => None,
        },
        None => None,
    }
}

impl Config {
    /// The default configuration: the cache under the home directory, or
    /// under the working directory where the home directory is unknown.
    pub fn new() -> (r: Config) {
        Config::with_home(home_dir())
    }

    /// The configuration whose cache is under `home`, or under `.` without one.
    pub fn with_home(home: Option<String>) -> (r: Config)
        ensures
            r.cache_dir@ == match home {
                Some(h) => h@,
                None => "."@,
            },
    {
        match home {
            Some(h) => Config { cache_dir: h },
            None => Config { cache_dir: ".".to_owned() },
        }
    }
}

/// The first index of `--cachedir` in `args`, or -1 without one.
pub open spec fn flag_index(args: Seq<String>) -> int
    decreases args.len(),
{
    if args.len() == 0 {
        -1
    } else if args[0]@ == "--cachedir"@ {
        0
    } else {
        let k = flag_index(args.drop_first());
        if k < 0 {
            -1
        } else {
            k + 1
        }
    }
}

/// The argument that follows the first `--cachedir`, if any.
pub open spec fn cache_dir_arg(args: Seq<String>) -> Option<Seq<char>> {
    let k = flag_index(args);
    if 0 <= k && k + 1 < args.len() {
        Some(args[k + 1]@)
    } else {
        None
    }
}

proof fn lemma_flag_index_bounds(args: Seq<String>)
    ensures
        -1 <= flag_index(args) < args.len(),
    decreases args.len(),
{
    if args.len() > 0 {
        lemma_flag_index_bounds(args.drop_first());
    }
}

/// The new cache directory given by `--cachedir <dir>` among `args`.
pub fn parse_config_args(args: &Vec<String>) -> (r: Option<String>)
    ensures
        match r {
            Some(d) => cache_dir_arg(args@) == Some(d@),
            None => cache_dir_arg(args@) is None,
        },
{
    let n = args.len();
    let mut i: usize = 0;
    assert(args@.subrange(0, n as int) =~= args@);
    while i < n
        invariant
            n == args@.len(),
            i <= n,
            flag_index(args@) == (if flag_index(args@.subrange(i as int, n as int)) < 0 {
                -1
            } else {
                flag_index(args@.subrange(i as int, n as int)) + i
            }),
        decreases n - i,
    {
        assert(args@.subrange(i as int, n as int).drop_first() =~= args@.subrange(i + 1, n as int));
        if same_text(args[i].as_str(), "--cachedir") {
            proof {
                lemma_flag_index_bounds(args@);
            }
            if i + 1 < n {
                return Some(args[i + 1].clone());
            } else {
                return None;
            }
        }
        i = i + 1;
    }
    None
}

} // verus!
