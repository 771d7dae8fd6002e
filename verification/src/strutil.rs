//! String utilities shared by the sorter, the planner and the executor:
//! lexicographic ordering over character sequences, case folding, path
//! component extraction and decimal rendering for auto-renamed duplicates.

use vstd::prelude::*;
use vstd::string::StrSliceExecFns;
use vstd::string::StringExecFns;

verus! {

/// Lexicographic "less than or equal" over character sequences, comparing
/// scalar values position by position; a proper prefix sorts first.
pub open spec fn lex_le(a: Seq<char>, b: Seq<char>) -> bool
    decreases a.len(),
{
    if a.len() == 0 {
        true
    } else if b.len() == 0 {
        false
    } else if (a[0] as u32) < (b[0] as u32) {
        true
    } else if (b[0] as u32) < (a[0] as u32) {
        false
    } else {
        lex_le(a.skip(1), b.skip(1))
    }
}

/// `lex_le` is total: any two sequences compare one way or the other.
pub proof fn lemma_lex_le_total(a: Seq<char>, b: Seq<char>)
    ensures
        lex_le(a, b) || lex_le(b, a),
    decreases a.len(),
{
    if a.len() == 0 || b.len() == 0 {
    } else if (a[0] as u32) == (b[0] as u32) {
        lemma_lex_le_total(a.skip(1), b.skip(1));
    }
}

/// `lex_le` is transitive.
pub proof fn lemma_lex_le_trans(a: Seq<char>, b: Seq<char>, c: Seq<char>)
    requires
        lex_le(a, b),
        lex_le(b, c),
    ensures
        lex_le(a, c),
    decreases a.len(),
{
    if a.len() == 0 {
    } else if b.len() == 0 {
    } else if c.len() == 0 {
    } else {
        if (a[0] as u32) == (b[0] as u32) && (b[0] as u32) == (c[0] as u32) {
            lemma_lex_le_trans(a.skip(1), b.skip(1), c.skip(1));
        }
    }
}

/// Dropping an equal common prefix does not change the comparison.
pub proof fn lemma_lex_le_common_prefix(a: Seq<char>, b: Seq<char>, i: int)
    requires
        0 <= i <= a.len(),
        i <= b.len(),
        forall|k: int| 0 <= k < i ==> (a[k] as u32) == (b[k] as u32),
    ensures
        lex_le(a, b) == lex_le(a.skip(i), b.skip(i)),
    decreases i,
{
    if i == 0 {
        assert(a.skip(0) =~= a);
        assert(b.skip(0) =~= b);
    } else {
        assert(a.len() > 0 && b.len() > 0);
        assert((a[0] as u32) == (b[0] as u32));
        lemma_lex_le_common_prefix(a.skip(1), b.skip(1), i - 1);
        assert(a.skip(1).skip(i - 1) =~= a.skip(i));
        assert(b.skip(1).skip(i - 1) =~= b.skip(i));
    }
}

/// Compare two strings in the order given by `lex_le` over their characters.
pub fn str_lex_le(a: &str, b: &str) -> (r: bool)
    ensures
        r == lex_le(a@, b@),
{
    let na = a.unicode_len();
    let nb = b.unicode_len();
    let mut i: usize = 0;
    loop
        invariant
            i <= na,
            i <= nb,
            na == a@.len(),
            nb == b@.len(),
            forall|k: int| 0 <= k < i ==> (a@[k] as u32) == (b@[k] as u32),
        decreases na - i,
    {
        proof {
            lemma_lex_le_common_prefix(a@, b@, i as int);
        }
        if i >= na {
            assert(a@.skip(i as int).len() == 0);
            return true;
        }
        if i >= nb {
            assert(b@.skip(i as int).len() == 0);
            assert(a@.skip(i as int).len() > 0);
            return false;
        }
        let ca = a.get_char(i) as u32;
        let cb = b.get_char(i) as u32;
        assert(a@.skip(i as int)[0] == a@[i as int]);
        assert(b@.skip(i as int)[0] == b@[i as int]);
        if ca < cb {
            return true;
        }
        if cb < ca {
            return false;
        }
        i = i + 1;
    }
}

/// The character sequence that `str::to_lowercase` yields for `s`: a pure
/// function of the characters alone, left unspecified here.
pub uninterp spec fn lower_of(s: Seq<char>) -> Seq<char>;

/// Relies on `str::to_lowercase`: Unicode case folding, a deterministic
/// function of the input characters alone.
#[verifier::external_body]
pub fn lowercase(s: &str) -> (r: String)
    ensures
        r@ == lower_of(s@),
{
    s.to_lowercase()
}

/// String equality by characters.
pub fn str_eq(a: &str, b: &str) -> (r: bool)
    ensures
        r == (a@ == b@),
{
    let na = a.unicode_len();
    let nb = b.unicode_len();
    if na != nb {
        return false;
    }
    let mut i: usize = 0;
    loop
        invariant
            i <= na,
            na == a@.len(),
            nb == b@.len(),
            na == nb,
            forall|k: int| 0 <= k < i ==> a@[k] == b@[k],
        decreases na - i,
    {
        if i >= na {
            assert(a@ =~= b@);
            return true;
        }
        if a.get_char(i) != b.get_char(i) {
            return false;
        }
        i = i + 1;
    }
}

/// Path separators recognised in both native styles.
pub open spec fn is_sep(c: char) -> bool {
    c == '/' || c == '\\'
}

/// The suffix of `s` after its last path separator (all of `s` when there is
/// none, empty when `s` ends in a separator).
pub open spec fn after_last_sep(s: Seq<char>) -> Seq<char>
    decreases s.len(),
{
    if s.len() == 0 {
        s
    } else if is_sep(s[s.len() - 1]) {
        Seq::<char>::empty()
    } else {
        after_last_sep(s.drop_last()).push(s[s.len() - 1])
    }
}

proof fn lemma_after_last_sep_none(s: Seq<char>)
    requires
        forall|j: int| 0 <= j < s.len() ==> !is_sep(s[j]),
    ensures
        after_last_sep(s) == s,
    decreases s.len(),
{
    if s.len() > 0 {
        lemma_after_last_sep_none(s.drop_last());
        assert(after_last_sep(s.drop_last()).push(s[s.len() - 1]) =~= s);
    }
}

proof fn lemma_after_last_sep_at(s: Seq<char>, i: int)
    requires
        0 <= i < s.len(),
        is_sep(s[i]),
        forall|j: int| i < j < s.len() ==> !is_sep(s[j]),
    ensures
        after_last_sep(s) == s.skip(i + 1),
    decreases s.len(),
{
    if i == s.len() - 1 {
        assert(s.skip(i + 1) =~= Seq::<char>::empty());
    } else {
        lemma_after_last_sep_at(s.drop_last(), i);
        assert(s.drop_last().skip(i + 1) =~= s.skip(i + 1).drop_last());
        assert(s.skip(i + 1).len() > 0);
        assert(s.skip(i + 1).drop_last().push(s[s.len() - 1]) =~= s.skip(i + 1));
    }
}

/// The display name of a path: everything after the last separator.
pub fn file_name_of(path: &str) -> (r: String)
    ensures
        r@ == after_last_sep(path@),
{
    let n = path.unicode_len();
    let mut j: usize = n;
    loop
        invariant
            j <= n,
            n == path@.len(),
            forall|k: int| j <= k < n ==> !is_sep(path@[k]),
        decreases j,
    {
        if j == 0 {
            proof {
                lemma_after_last_sep_none(path@);
            }
            return String::from_str(path);
        }
        let c = path.get_char(j - 1);
        if c == '/' || c == '\\' {
            proof {
                lemma_after_last_sep_at(path@, j - 1);
            }
            let r = path.substring_char(j, n);
            assert(path@.subrange(j as int, n as int) =~= path@.skip(j as int));
            return String::from_str(r);
        }
        j = j - 1;
    }
}

/// Index of the `.` that starts the extension of a path's final component:
/// the last dot that is neither the first character of that component (a
/// leading dot marks a hidden file, not an extension) nor beyond a path
/// separator; -1 when the final component has no extension.
pub open spec fn last_dot(name: Seq<char>) -> int
    decreases name.len(),
{
    if name.len() <= 1 {
        -1
    } else if is_sep(name[name.len() - 1]) {
        -1
    } else if name[name.len() - 1] == '.' && !is_sep(name[name.len() - 2]) {
        name.len() - 1
    } else {
        last_dot(name.drop_last())
    }
}

/// Stem part of a file name: up to the extension dot, or the whole name.
pub open spec fn stem_of(name: Seq<char>) -> Seq<char> {
    if last_dot(name) < 0 {
        name
    } else {
        name.subrange(0, last_dot(name))
    }
}

/// Extension part of a file name, including the dot; empty when there is
/// no extension.
pub open spec fn ext_of(name: Seq<char>) -> Seq<char> {
    if last_dot(name) < 0 {
        Seq::<char>::empty()
    } else {
        name.subrange(last_dot(name), name.len() as int)
    }
}

proof fn lemma_last_dot_none(name: Seq<char>)
    requires
        forall|j: int| 1 <= j < name.len() ==> name[j] != '.' && !is_sep(name[j]),
    ensures
        last_dot(name) == -1,
    decreases name.len(),
{
    if name.len() > 1 {
        lemma_last_dot_none(name.drop_last());
    }
}

proof fn lemma_last_dot_stop(name: Seq<char>, i: int)
    requires
        0 <= i < name.len(),
        is_sep(name[i]) || (name[i] == '.' && (i == 0 || is_sep(name[i - 1]))),
        forall|j: int| i < j < name.len() ==> name[j] != '.' && !is_sep(name[j]),
    ensures
        last_dot(name) == -1,
    decreases name.len(),
{
    if i == name.len() - 1 {
        if is_sep(name[i]) {
        } else if i == 0 {
        } else {
            lemma_last_dot_stop(name.drop_last(), i - 1);
        }
    } else {
        lemma_last_dot_stop(name.drop_last(), i);
    }
}

proof fn lemma_last_dot_at(name: Seq<char>, i: int)
    requires
        1 <= i < name.len(),
        name[i] == '.',
        !is_sep(name[i - 1]),
        forall|j: int| i < j < name.len() ==> name[j] != '.' && !is_sep(name[j]),
    ensures
        last_dot(name) == i,
    decreases name.len(),
{
    if i < name.len() - 1 {
        lemma_last_dot_at(name.drop_last(), i);
    }
}

/// Split a path into the stem and the extension (dot included) of its
/// final component; the two parts concatenate back to the whole path.
pub fn split_stem_ext(name: &str) -> (r: (String, String))
    ensures
        r.0@ == stem_of(name@),
        r.1@ == ext_of(name@),
{
    let n = name.unicode_len();
    let mut j: usize = n;
    loop
        invariant
            j <= n,
            n == name@.len(),
            forall|k: int| j <= k < n ==> name@[k] != '.' && !is_sep(name@[k]),
        decreases j,
    {
        if j <= 1 {
            proof {
                lemma_last_dot_none(name@);
            }
            return (String::from_str(name), String::new());
        }
        let c = name.get_char(j - 1);
        if c == '/' || c == '\\' {
            proof {
                lemma_last_dot_stop(name@, j - 1 as int);
            }
            return (String::from_str(name), String::new());
        }
        if c == '.' {
            let prev = name.get_char(j - 2);
            if prev == '/' || prev == '\\' {
                proof {
                    lemma_last_dot_stop(name@, j - 1 as int);
                }
                return (String::from_str(name), String::new());
            }
            proof {
                lemma_last_dot_at(name@, j - 1 as int);
            }
            let stem = name.substring_char(0, j - 1);
            let ext = name.substring_char(j - 1, n);
            return (String::from_str(stem), String::from_str(ext));
        }
        j = j - 1;
    }
}

/// Join a base path and a relative component with a single `/` separator.
pub fn join_path(base: &str, rest: &str) -> (r: String)
    ensures
        r@ == base@ + seq!['/'] + rest@,
{
    proof {
        reveal_strlit("/");
    }
    let mut s = String::from_str(base);
    s.append("/");
    s.append(rest);
    assert(s@ =~= base@ + seq!['/'] + rest@);
    s
}

/// The remainder of `path` under directory `root`: defined when `path` is
/// `root`, one separator, then a non-empty remainder.
pub open spec fn rel_under(path: Seq<char>, root: Seq<char>) -> Option<Seq<char>> {
    if path.len() > root.len() + 1 && path.subrange(0, root.len() as int) == root && is_sep(
        path[root.len() as int],
    ) {
        Some(path.skip(root.len() + 1int))
    } else {
        None
    }
}

/// Strip a directory prefix plus one separator from a path.
pub fn strip_path_prefix(path: &str, root: &str) -> (r: Option<String>)
    ensures
        match r {
            Some(s) => rel_under(path@, root@) == Some(s@),
            None => rel_under(path@, root@) is None,
        },
{
    let np = path.unicode_len();
    let nr = root.unicode_len();
    if np == 0 || np - 1 <= nr {
        return None;
    }
    let mut i: usize = 0;
    while i < nr
        invariant
            i <= nr,
            np == path@.len(),
            nr == root@.len(),
            np > nr + 1,
            forall|k: int| 0 <= k < i ==> path@[k] == root@[k],
        decreases nr - i,
    {
        if path.get_char(i) != root.get_char(i) {
            assert(path@.subrange(0, nr as int)[i as int] != root@[i as int]);
            return None;
        }
        i = i + 1;
    }
    assert(path@.subrange(0, nr as int) =~= root@);
    let c = path.get_char(nr);
    if c == '/' || c == '\\' {
        let r = path.substring_char(nr + 1, np);
        assert(path@.subrange(nr + 1, np as int) =~= path@.skip(nr + 1));
        Some(String::from_str(r))
    } else {
        None
    }
}

/// The suffix of `s` after its last dot (all of `s` when there is none,
/// empty when `s` ends in a dot): the loose file-type tag the recency
/// list derives from a bare name.
pub open spec fn after_last_dot(s: Seq<char>) -> Seq<char>
    decreases s.len(),
{
    if s.len() == 0 {
        s
    } else if s[s.len() - 1] == '.' {
        Seq::<char>::empty()
    } else {
        after_last_dot(s.drop_last()).push(s[s.len() - 1])
    }
}

proof fn lemma_after_last_dot_none(s: Seq<char>)
    requires
        forall|j: int| 0 <= j < s.len() ==> s[j] != '.',
    ensures
        after_last_dot(s) == s,
    decreases s.len(),
{
    if s.len() > 0 {
        lemma_after_last_dot_none(s.drop_last());
        assert(after_last_dot(s.drop_last()).push(s[s.len() - 1]) =~= s);
    }
}

proof fn lemma_after_last_dot_at(s: Seq<char>, i: int)
    requires
        0 <= i < s.len(),
        s[i] == '.',
        forall|j: int| i < j < s.len() ==> s[j] != '.',
    ensures
        after_last_dot(s) == s.skip(i + 1),
    decreases s.len(),
{
    if i == s.len() - 1 {
        assert(s.skip(i + 1) =~= Seq::<char>::empty());
    } else {
        lemma_after_last_dot_at(s.drop_last(), i);
        assert(s.drop_last().skip(i + 1) =~= s.skip(i + 1).drop_last());
        assert(s.skip(i + 1).len() > 0);
        assert(s.skip(i + 1).drop_last().push(s[s.len() - 1]) =~= s.skip(i + 1));
    }
}

/// The loose file-type tag of a bare name: everything after its last dot.
pub fn file_type_of(name: &str) -> (r: String)
    ensures
        r@ == after_last_dot(name@),
{
    let n = name.unicode_len();
    let mut j: usize = n;
    loop
        invariant
            j <= n,
            n == name@.len(),
            forall|k: int| j <= k < n ==> name@[k] != '.',
        decreases j,
    {
        if j == 0 {
            proof {
                lemma_after_last_dot_none(name@);
            }
            return String::from_str(name);
        }
        let c = name.get_char(j - 1);
        if c == '.' {
            proof {
                lemma_after_last_dot_at(name@, j - 1);
            }
            let r = name.substring_char(j, n);
            assert(name@.subrange(j as int, n as int) =~= name@.skip(j as int));
            return String::from_str(r);
        }
        j = j - 1;
    }
}

/// The character for one decimal digit.
pub open spec fn dec_digit(d: int) -> char {
    if d == 0 {
        '0'
    } else if d == 1 {
        '1'
    } else if d == 2 {
        '2'
    } else if d == 3 {
        '3'
    } else if d == 4 {
        '4'
    } else if d == 5 {
        '5'
    } else if d == 6 {
        '6'
    } else if d == 7 {
        '7'
    } else if d == 8 {
        '8'
    } else {
        '9'
    }
}

/// Decimal rendering of a non-negative integer, most significant digit first.
pub open spec fn dec_digits(n: int) -> Seq<char>
    recommends
        n >= 0,
    decreases n,
{
    if n < 10 {
        seq![dec_digit(n)]
    } else {
        dec_digits(n / 10).push(dec_digit(n % 10))
    }
}

/// Numeric value of one digit character (0 for non-digits).
pub open spec fn digit_val(c: char) -> int {
    if c == '0' {
        0
    } else if c == '1' {
        1
    } else if c == '2' {
        2
    } else if c == '3' {
        3
    } else if c == '4' {
        4
    } else if c == '5' {
        5
    } else if c == '6' {
        6
    } else if c == '7' {
        7
    } else if c == '8' {
        8
    } else {
        9
    }
}

/// Numeric value of a digit sequence.
pub open spec fn dec_val(s: Seq<char>) -> int
    decreases s.len(),
{
    if s.len() == 0 {
        0
    } else {
        dec_val(s.drop_last()) * 10 + digit_val(s.last())
    }
}

/// The rendering round-trips through its value, so it is injective.
pub proof fn lemma_dec_digits_val(n: int)
    requires
        n >= 0,
    ensures
        dec_val(dec_digits(n)) == n,
        dec_digits(n).len() >= 1,
    decreases n,
{
    if n < 10 {
        assert(seq![dec_digit(n)].drop_last() =~= Seq::<char>::empty());
        assert(dec_val(Seq::<char>::empty()) == 0);
        assert(seq![dec_digit(n)].last() == dec_digit(n));
        assert(digit_val(dec_digit(n)) == n);
    } else {
        lemma_dec_digits_val(n / 10);
        let s = dec_digits(n / 10).push(dec_digit(n % 10));
        assert(s.drop_last() =~= dec_digits(n / 10));
        assert(s.last() == dec_digit(n % 10));
        assert(digit_val(dec_digit(n % 10)) == n % 10);
        assert(dec_val(s) == (n / 10) * 10 + n % 10);
        assert((n / 10) * 10 + n % 10 == n) by (nonlinear_arith)
            requires
                n >= 10,
        ;
    }
}

/// Distinct numbers render to distinct digit sequences.
pub proof fn lemma_dec_digits_injective(m: int, n: int)
    requires
        m >= 0,
        n >= 0,
        dec_digits(m) == dec_digits(n),
    ensures
        m == n,
{
    lemma_dec_digits_val(m);
    lemma_dec_digits_val(n);
}

fn digit_str(d: u64) -> (r: &'static str)
    requires
        d < 10,
    ensures
        r@ =~= seq![dec_digit(d as int)],
{
    proof {
        reveal_strlit("0");
        reveal_strlit("1");
        reveal_strlit("2");
        reveal_strlit("3");
        reveal_strlit("4");
        reveal_strlit("5");
        reveal_strlit("6");
        reveal_strlit("7");
        reveal_strlit("8");
        reveal_strlit("9");
    }
    if d == 0 {
        "0"
    } else if d == 1 {
        "1"
    } else if d == 2 {
        "2"
    } else if d == 3 {
        "3"
    } else if d == 4 {
        "4"
    } else if d == 5 {
        "5"
    } else if d == 6 {
        "6"
    } else if d == 7 {
        "7"
    } else if d == 8 {
        "8"
    } else {
        "9"
    }
}

/// Render a number in decimal.
pub fn u64_to_dec(n: u64) -> (r: String)
    ensures
        r@ == dec_digits(n as int),
    decreases n,
{
    if n < 10 {
        String::from_str(digit_str(n))
    } else {
        let mut s = u64_to_dec(n / 10);
        s.append(digit_str(n % 10));
        assert(s@ =~= dec_digits((n / 10) as int).push(dec_digit((n % 10) as int)));
        s
    }
}

} // verus!
