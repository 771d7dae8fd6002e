//! Command-bar resolution: what a typed request means.
//!
//! A request resolves, in order, to the virtual Home view, an
//! environment-variable path like `%APPDATA%\sub\dir`, a built-in shell
//! program, or a plain filesystem path.  Looking up the variable,
//! spawning the program and probing the path are the shell's work; the
//! classification itself is decided here.

use vstd::prelude::*;
use vstd::string::StrSliceExecFns;
use vstd::string::StringExecFns;

use crate::strutil::{is_sep, join_path, lower_of, lowercase, str_eq};

verus! {

/// What a resolution reports back to the UI.
pub struct ResolveResult {
    /// `"path"` or `"action"`.
    pub kind: String,
    pub value: String,
}

/// A `"path"` result.
pub fn path_result(value: String) -> (r: ResolveResult)
    ensures
        r.kind@ == "path"@,
        r.value@ == value@,
{
    ResolveResult { kind: String::from_str("path"), value }
}

/// An `"action"` result.
pub fn action_result(value: String) -> (r: ResolveResult)
    ensures
        r.kind@ == "action"@,
        r.value@ == value@,
{
    ResolveResult { kind: String::from_str("action"), value }
}

/// The characters `str::trim` leaves of `s`: a pure function of the
/// characters alone, left unspecified here.
pub uninterp spec fn trim_of(s: Seq<char>) -> Seq<char>;

/// Relies on `str::trim`: strips leading and trailing whitespace, a
/// deterministic function of the characters alone.
#[verifier::external_body]
pub fn trim_str(s: &str) -> (r: String)
    ensures
        r@ == trim_of(s@),
{
    s.trim().to_string()
}

/// ASCII upper-casing of one character: the lower-case letters move down
/// by the case distance of 32 scalar values, everything else is kept.
pub open spec fn upper_ascii_char(c: char) -> char {
    if 'a' as u32 <= c as u32 && c as u32 <= 'z' as u32 {
        ((c as u32) - 32) as char
    } else {
        c
    }
}

/// ASCII upper-casing of a character sequence.
pub open spec fn upper_ascii_of(s: Seq<char>) -> Seq<char> {
    Seq::new(s.len(), |i: int| upper_ascii_char(s[i]))
}

fn upper_ascii_letter(c: char) -> (r: Option<&'static str>)
    ensures
        match r {
            Some(u) => u@ =~= seq![upper_ascii_char(c)] && c as u32 >= 'a' as u32 && c as u32
                <= 'z' as u32,
            None => upper_ascii_char(c) == c,
        },
{
    proof {
        reveal_strlit("A");
        reveal_strlit("B");
        reveal_strlit("C");
        reveal_strlit("D");
        reveal_strlit("E");
        reveal_strlit("F");
        reveal_strlit("G");
        reveal_strlit("H");
        reveal_strlit("I");
        reveal_strlit("J");
        reveal_strlit("K");
        reveal_strlit("L");
        reveal_strlit("M");
        reveal_strlit("N");
        reveal_strlit("O");
        reveal_strlit("P");
        reveal_strlit("Q");
        reveal_strlit("R");
        reveal_strlit("S");
        reveal_strlit("T");
        reveal_strlit("U");
        reveal_strlit("V");
        reveal_strlit("W");
        reveal_strlit("X");
        reveal_strlit("Y");
        reveal_strlit("Z");
    }
    match c {
        'a' => Some("A"),
        'b' => Some("B"),
        'c' => Some("C"),
        'd' => Some("D"),
        'e' => Some("E"),
        'f' => Some("F"),
        'g' => Some("G"),
        'h' => Some("H"),
        'i' => Some("I"),
        'j' => Some("J"),
        'k' => Some("K"),
        'l' => Some("L"),
        'm' => Some("M"),
        'n' => Some("N"),
        'o' => Some("O"),
        'p' => Some("P"),
        'q' => Some("Q"),
        'r' => Some("R"),
        's' => Some("S"),
        't' => Some("T"),
        'u' => Some("U"),
        'v' => Some("V"),
        'w' => Some("W"),
        'x' => Some("X"),
        'y' => Some("Y"),
        'z' => Some("Z"),
        _ => None,
    }
}

/// Upper-case the ASCII letters of a string, leaving the rest as it is.
pub fn uppercase_ascii(s: &str) -> (r: String)
    ensures
        r@ == upper_ascii_of(s@),
{
    let n = s.unicode_len();
    let mut out = String::new();
    let mut i: usize = 0;
    while i < n
        invariant
            i <= n,
            n == s@.len(),
            out@ =~= upper_ascii_of(s@).take(i as int),
        decreases n - i,
    {
        let c = s.get_char(i);
        match upper_ascii_letter(c) {
            Some(u) => {
                out.append(u);
            },
            None => {
                let piece = s.substring_char(i, i + 1);
                assert(piece@ =~= seq![s@[i as int]]);
                out.append(piece);
            },
        }
        proof {
            assert(out@ =~= upper_ascii_of(s@).take(i + 1));
        }
        i = i + 1;
    }
    proof {
        assert(upper_ascii_of(s@).take(n as int) =~= upper_ascii_of(s@));
    }
    out
}

/// The index of the first `%` at position one or later, or -1.
pub open spec fn first_pct_from(s: Seq<char>, i: int) -> int
    recommends
        1 <= i,
    decreases s.len() - i,
{
    if i < 1 || i >= s.len() {
        -1
    } else if s[i] == '%' {
        i
    } else {
        first_pct_from(s, i + 1)
    }
}

proof fn lemma_first_pct_found(s: Seq<char>, j: int)
    requires
        1 <= j < s.len(),
        s[j] == '%',
        forall|k: int| 1 <= k < j ==> s[k] != '%',
    ensures
        first_pct_from(s, 1) == j,
    decreases j,
{
    lemma_first_pct_step(s, 1, j);
}

proof fn lemma_first_pct_step(s: Seq<char>, i: int, j: int)
    requires
        1 <= i <= j < s.len(),
        s[j] == '%',
        forall|k: int| i <= k < j ==> s[k] != '%',
    ensures
        first_pct_from(s, i) == j,
    decreases j - i,
{
    if i < j {
        lemma_first_pct_step(s, i + 1, j);
    }
}

proof fn lemma_first_pct_none(s: Seq<char>, i: int)
    requires
        1 <= i,
        forall|k: int| i <= k < s.len() ==> s[k] != '%',
    ensures
        first_pct_from(s, i) == -1,
    decreases s.len() - i,
{
    if i < s.len() {
        lemma_first_pct_none(s, i + 1);
    }
}

/// `s` with its leading path separators removed.
pub open spec fn skip_leading_seps(s: Seq<char>) -> Seq<char>
    decreases s.len(),
{
    if s.len() > 0 && is_sep(s[0]) {
        skip_leading_seps(s.skip(1))
    } else {
        s
    }
}

proof fn lemma_skip_leading_seps_at(s: Seq<char>, i: int)
    requires
        0 <= i <= s.len(),
        forall|k: int| 0 <= k < i ==> is_sep(s[k]),
        i < s.len() ==> !is_sep(s[i]),
    ensures
        skip_leading_seps(s) == s.skip(i),
    decreases i,
{
    if i == 0 {
        assert(s.skip(0) =~= s);
    } else {
        assert(is_sep(s[0]));
        lemma_skip_leading_seps_at(s.skip(1), i - 1);
        assert(s.skip(1).skip(i - 1) =~= s.skip(i));
    }
}

/// How one typed request is to be handled.
pub enum CommandAction {
    /// The virtual Home view.
    HomePath,
    /// An environment-variable path: look `var` up, then descend into
    /// `rest` (which may be empty).
    EnvPath { var: String, rest: String },
    /// A built-in program to launch.
    Shell { program: String },
    /// Treat the trimmed text as a filesystem path.
    TryPath { path: String },
}

/// The built-in shell programs, after case folding.
pub open spec fn is_builtin(t: Seq<char>) -> bool {
    t == "cmd"@ || t == "powershell"@ || t == "explorer"@
}

/// Whether the trimmed request has the `%VAR%...` shape.
pub open spec fn is_env_shape(t: Seq<char>) -> bool {
    t.len() > 0 && t[0] == '%' && first_pct_from(t, 1) >= 1
}

/// Classify a typed request.  The virtual Home name wins first; then the
/// `%VAR%` shape with the variable name upper-cased and the remainder
/// stripped of leading separators; then the built-in programs; anything
/// else is tried as a path, trimmed.
pub fn parse_command(command: &str) -> (r: CommandAction)
    ensures
        ({
            let t = trim_of(command@);
            match r {
                CommandAction::HomePath => lower_of(t) == "home"@,
                CommandAction::EnvPath { var, rest } => {
                    &&& lower_of(t) != "home"@
                    &&& is_env_shape(t)
                    &&& var@ == upper_ascii_of(t.subrange(1, first_pct_from(t, 1)))
                    &&& rest@ == skip_leading_seps(t.skip(first_pct_from(t, 1) + 1))
                },
                CommandAction::Shell { program } => {
                    &&& lower_of(t) != "home"@
                    &&& !is_env_shape(t)
                    &&& is_builtin(lower_of(t))
                    &&& program@ == lower_of(t)
                },
                CommandAction::TryPath { path } => {
                    &&& lower_of(t) != "home"@
                    &&& !is_env_shape(t)
                    &&& !is_builtin(lower_of(t))
                    &&& path@ == t
                },
            }
        }),
{
    let trimmed = trim_str(command);
    let t = trimmed.as_str();
    let folded = lowercase(t);
    if str_eq(folded.as_str(), "home") {
        return CommandAction::HomePath;
    }
    let n = t.unicode_len();
    if n > 0 && t.get_char(0) == '%' {
        let mut j: usize = 1;
        while j < n && t.get_char(j) != '%'
            invariant
                1 <= j <= n,
                n == t@.len(),
                forall|k: int| 1 <= k < j ==> t@[k] != '%',
            decreases n - j,
        {
            j = j + 1;
        }
        if j < n {
            proof {
                lemma_first_pct_found(t@, j as int);
            }
            let raw_var = t.substring_char(1, j);
            let var = uppercase_ascii(raw_var);
            let after = t.substring_char(j + 1, n);
            proof {
                assert(t@.subrange(j + 1, n as int) =~= t@.skip(j + 1));
            }
            let rest = strip_leading_seps(after);
            proof {
                assert(rest@ == skip_leading_seps(t@.skip(first_pct_from(t@, 1) + 1)));
            }
            return CommandAction::EnvPath { var, rest };
        }
        proof {
            lemma_first_pct_none(t@, 1);
        }
    }
    let fs = folded.as_str();
    if str_eq(fs, "cmd") || str_eq(fs, "powershell") || str_eq(fs, "explorer") {
        return CommandAction::Shell { program: folded };
    }
    CommandAction::TryPath { path: trimmed }
}

/// Remove leading path separators.
fn strip_leading_seps(s: &str) -> (r: String)
    ensures
        r@ == skip_leading_seps(s@),
{
    let n = s.unicode_len();
    let mut i: usize = 0;
    while i < n && (s.get_char(i) == '/' || s.get_char(i) == '\\')
        invariant
            i <= n,
            n == s@.len(),
            forall|k: int| 0 <= k < i ==> is_sep(s@[k]),
        decreases n - i,
    {
        i = i + 1;
    }
    proof {
        lemma_skip_leading_seps_at(s@, i as int);
    }
    let tail = s.substring_char(i, n);
    proof {
        assert(s@.subrange(i as int, n as int) =~= s@.skip(i as int));
    }
    String::from_str(tail)
}

/// The environment variables a request may name.
pub fn env_var_allowed(var: &str) -> (r: bool)
    ensures
        r == (var@ == "APPDATA"@ || var@ == "LOCALAPPDATA"@ || var@ == "TEMP"@ || var@ == "TMP"@
            || var@ == "USERPROFILE"@),
{
    str_eq(var, "APPDATA") || str_eq(var, "LOCALAPPDATA") || str_eq(var, "TEMP") || str_eq(
        var,
        "TMP",
    ) || str_eq(var, "USERPROFILE")
}

/// Join a resolved environment value with the request's remainder: the
/// value alone when the remainder is empty, else the two joined by a
/// single separator.
pub fn join_env_path(value: &str, rest: &str) -> (r: String)
    ensures
        rest@.len() == 0 ==> r@ == value@,
        rest@.len() > 0 ==> r@ == value@ + seq!['/'] + rest@,
{
    if rest.unicode_len() == 0 {
        String::from_str(value)
    } else {
        join_path(value, rest)
    }
}

/// The quick-access shortcuts for a home directory: the virtual Home
/// entry first, then the six standard folders, with the videos folder
/// named by the platform.
pub fn quick_access_entries(home: &str, videos_folder: &str) -> (r: Vec<(String, String)>)
    ensures
        r@.len() == 7,
        r@[0].0@ == "Home"@ && r@[0].1@ == "Home"@,
        r@[1].0@ == "Documents"@ && r@[1].1@ == home@ + seq!['/'] + "Documents"@,
        r@[2].0@ == "Downloads"@ && r@[2].1@ == home@ + seq!['/'] + "Downloads"@,
        r@[3].0@ == "Desktop"@ && r@[3].1@ == home@ + seq!['/'] + "Desktop"@,
        r@[4].0@ == "Pictures"@ && r@[4].1@ == home@ + seq!['/'] + "Pictures"@,
        r@[5].0@ == "Music"@ && r@[5].1@ == home@ + seq!['/'] + "Music"@,
        r@[6].0@ == "Videos"@ && r@[6].1@ == home@ + seq!['/'] + videos_folder@,
{
    let mut r: Vec<(String, String)> = Vec::new();
    r.push((String::from_str("Home"), String::from_str("Home")));
    r.push((String::from_str("Documents"), join_path(home, "Documents")));
    r.push((String::from_str("Downloads"), join_path(home, "Downloads")));
    r.push((String::from_str("Desktop"), join_path(home, "Desktop")));
    r.push((String::from_str("Pictures"), join_path(home, "Pictures")));
    r.push((String::from_str("Music"), join_path(home, "Music")));
    r.push((String::from_str("Videos"), join_path(home, videos_folder)));
    r
}

} // verus!
