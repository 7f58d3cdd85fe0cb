//! The text of the application log: severities, line framing, and where the
//! log lives when no directory is given.
use vstd::prelude::*;

verus! {

/// File name of the log inside its directory.
pub const LOG_FILE_NAME: &'static str = "journal-todo.log";

/// The message of an error entry.
pub fn error(message: &str) -> (r: String)
    ensures
        r@ == "ERROR: "@ + message@,
{
    let mut s = String::from_str("ERROR: ");
    s.append(message);
    s
}

/// The message of an informational entry.
pub fn info(message: &str) -> (r: String)
    ensures
        r@ == "INFO: "@ + message@,
{
    let mut s = String::from_str("INFO: ");
    s.append(message);
    s
}

/// One line of the log file: the time stamp in brackets, the message, and a
/// line break.
pub fn log_line(timestamp: &str, message: &str) -> (r: String)
    ensures
        r@ == "["@ + timestamp@ + "] "@ + message@ + "\n"@,
{
    let mut s = String::from_str("[");
    s.append(timestamp);
    s.append("] ");
    s.append(message);
    s.append("\n");
    s
}

/// `base` joined with a relative `part`, with one `/` between them.
pub open spec fn join_path(base: Seq<char>, part: Seq<char>) -> Seq<char> {
    if base.len() == 0 {
        part
    } else if base.last() == '/' {
        base + part
    } else {
        base + "/"@ + part
    }
}

pub fn path_join(base: &str, part: &str) -> (r: String)
    ensures
        r@ == join_path(base@, part@),
{
    let mut s = String::from_str(base);
    let n = base.unicode_len();
    if n == 0 {
        return String::from_str(part);
    }
    if base.get_char(n - 1) != '/' {
        s.append("/");
    }
    s.append(part);
    s
}

/// The directory that holds the log when none is given: under the first of
/// the user profile and home directories that is set, as `.journal-todo`;
/// else under the first set temporary directory, as `journal-todo`; else
/// the current directory.
pub open spec fn fallback_dir_spec(
    user_profile: Option<Seq<char>>,
    home: Option<Seq<char>>,
    temp: Option<Seq<char>>,
    tmp: Option<Seq<char>>,
) -> Seq<char> {
    if user_profile is Some {
        join_path(user_profile->Some_0, ".journal-todo"@)
    } else if home is Some {
        join_path(home->Some_0, ".journal-todo"@)
    } else if temp is Some {
        join_path(temp->Some_0, "journal-todo"@)
    } else if tmp is Some {
        join_path(tmp->Some_0, "journal-todo"@)
    } else {
        "."@
    }
}

pub open spec fn opt_view(o: Option<String>) -> Option<Seq<char>> {
    match o {
        Some(s) => Some(s@),
        None => None,
    }
}

/// Picks the log directory from the environment variables `USERPROFILE`,
/// `HOME`, `TEMP` and `TMP`, each `None` where it is not set.
pub fn get_fallback_log_dir(
    user_profile: Option<String>,
    home: Option<String>,
    temp: Option<String>,
    tmp: Option<String>,
) -> (r: String)
    ensures
        r@ == fallback_dir_spec(opt_view(user_profile), opt_view(home), opt_view(temp), opt_view(tmp)),
{
    match (user_profile, home, temp, tmp) {
        (Some(d), _, _, _) => path_join(d.as_str(), ".journal-todo"),
        (None, Some(d), _, _) => path_join(d.as_str(), ".journal-todo"),
        (None, None, Some(d), _) => path_join(d.as_str(), "journal-todo"),
        (None, None, None, Some(d)) => path_join(d.as_str(), "journal-todo"),
        (None, None, None, None) => String::from_str("."),
    }
}

/// Where the log of a run is written, once the logger is set up.
pub struct LogState {
    pub path: Option<String>,
}

impl LogState {
    /// A logger that has no file yet.
    pub fn new() -> (r: LogState)
        ensures
            r.path is None,
    {
        LogState { path: None }
    }

    /// Notes that the log is written to the file `LOG_FILE_NAME` inside `dir`,
    /// and returns that path.
    pub fn open_in(&mut self, dir: &str) -> (r: String)
        ensures
            r@ == join_path(dir@, LOG_FILE_NAME@),
            final(self).path is Some && final(self).path->Some_0@ == r@,
    {
        let p = path_join(dir, LOG_FILE_NAME);
        self.path = Some(p.clone());
        p
    }
}

/// The path of the log file, where one was opened.
pub fn get_log_path(state: &LogState) -> (r: Option<String>)
    ensures
        r == state.path,
{
    state.path.clone()
}

} // verus!
