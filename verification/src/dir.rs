//! Where pm3 keeps its files: the home directory, `~/.pm3` and `~/.pm3/log`.
//! Paths are Unix paths held as strings; reading the environment and
//! creating directories is left to the caller.
use vstd::prelude::*;

verus! {

/// Why a directory could not be determined.
#[derive(Debug, PartialEq, Eq, Structural, Clone, Copy)]
pub enum DirError {
    /// `$HOME` is unset or empty.
    HomeNotFound,
}

impl DirError {
    /// The text that accompanies the error.
    pub fn message(&self) -> (text: &'static str)
        ensures
            text@ == "platform-specific $HOME directory not found"@,
    {
        match self {
            DirError::HomeNotFound => "platform-specific $HOME directory not found",
        }
    }
}

/// The home directory named by the value of `$HOME`: an unset or empty
/// variable is an error.
pub fn home_dir(home_var: Option<String>) -> (home: Result<String, DirError>)
    ensures
        home matches Ok(h) <==> (home_var matches Some(v) && v@.len() > 0),
        home matches Ok(h) ==> home_var == Some(h),
        home is Err ==> home == Err::<String, DirError>(DirError::HomeNotFound),
{
    match home_var {
        Some(h) => {
            if h.as_str().unicode_len() == 0 {
                Err(DirError::HomeNotFound)
            } else {
                Ok(h)
            }
        },
        None => Err(DirError::HomeNotFound),
    }
}

/// `base` extended by the relative path `component`, with one `/` between
/// them unless `base` is empty or already ends with `/`.
pub open spec fn path_join(base: Seq<char>, component: Seq<char>) -> Seq<char> {
    if base.len() == 0 || base.last() == '/' {
        base + component
    } else {
        base + seq!['/'] + component
    }
}

/// Extends the path `base` by the relative path `component`.
pub fn join_path(base: &str, component: &str) -> (path: String)
    requires
        component@.len() > 0,
        component@[0] != '/',
    ensures
        path@ == path_join(base@, component@),
{
    let n: usize = base.unicode_len();
    let mut path = base.to_owned();
    if n > 0 && base.get_char(n - 1) != '/' {
        path.append("/");
        proof {
            reveal_strlit("/");
        }
    }
    path.append(component);
    path
}

/// The pm3 directory, `.pm3` inside the home directory `home`.
pub fn pm3_home(home: &str) -> (path: String)
    ensures
        path@ == path_join(home@, ".pm3"@),
{
    proof {
        reveal_strlit(".pm3");
    }
    join_path(home, ".pm3")
}

/// The log directory, `log` inside the pm3 directory `pm3_home`.
pub fn pm3_log_dir(pm3_home: &str) -> (path: String)
    ensures
        path@ == path_join(pm3_home@, "log"@),
{
    proof {
        reveal_strlit("log");
    }
    join_path(pm3_home, "log")
}

/// The log directory lies directly inside the pm3 directory, which lies
/// directly inside the home directory: for a home directory `h` (not
/// ending in `/`) it is `h/.pm3/log`.
pub proof fn lemma_log_dir_inside_pm3_home(home: Seq<char>)
    ensures
        path_join(path_join(home, ".pm3"@), "log"@) == path_join(home, ".pm3"@) + "/log"@,
        home.len() > 0 && home.last() != '/' ==> path_join(home, ".pm3"@) == home + "/.pm3"@,
{
    reveal_strlit(".pm3");
    reveal_strlit("log");
    reveal_strlit("/log");
    reveal_strlit("/.pm3");
    let p = path_join(home, ".pm3"@);
    assert(p.len() > 0 && p.last() == '3');
    assert(p + seq!['/'] + "log"@ =~= p + "/log"@);
    assert(home.len() > 0 && home.last() != '/' ==> home + seq!['/'] + ".pm3"@ =~= home + "/.pm3"@);
}

} // verus!
