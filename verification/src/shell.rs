//! The interactive shell of the host tool: parsing of command lines and
//! their arguments, session state, and the texts the shell shows.
//!
//! Reading lines, talking to the board and printing stay with the tool; it
//! asks this module what a line means.
use vstd::prelude::*;
use crate::text::str_eq;

verus! {

/// Whether `c` is white space in Unicode's sense (the `White_Space` property, which
/// `char::is_whitespace` and `str::trim` go by).
pub open spec fn is_white_space(c: char) -> bool {
    let u = c as u32;
    ||| 0x09 <= u <= 0x0D
    ||| u == 0x20
    ||| u == 0x85
    ||| u == 0xA0
    ||| u == 0x1680
    ||| 0x2000 <= u <= 0x200A
    ||| u == 0x2028
    ||| u == 0x2029
    ||| u == 0x202F
    ||| u == 0x205F
    ||| u == 0x3000
}

/// `s` without its leading white space.
pub open spec fn trim_start(s: Seq<char>) -> Seq<char>
    decreases s.len(),
{
    if s.len() > 0 && is_white_space(s[0]) {
        trim_start(s.drop_first())
    } else {
        s
    }
}

/// `s` without its trailing white space.
pub open spec fn trim_end(s: Seq<char>) -> Seq<char>
    decreases s.len(),
{
    if s.len() > 0 && is_white_space(s.last()) {
        trim_end(s.drop_last())
    } else {
        s
    }
}

/// `s` without leading and trailing white space, as `str::trim` gives it.
pub open spec fn trimmed(s: Seq<char>) -> Seq<char> {
    trim_end(trim_start(s))
}

fn is_white_space_char(c: char) -> (r: bool)
    ensures
        r == is_white_space(c),
{
    let u = c as u32;
    (0x09 <= u && u <= 0x0D) || u == 0x20 || u == 0x85 || u == 0xA0 || u == 0x1680 || (0x2000
        <= u && u <= 0x200A) || u == 0x2028 || u == 0x2029 || u == 0x202F || u == 0x205F || u
        == 0x3000
}

proof fn lemma_trim_start_at(s: Seq<char>, lo: int)
    requires
        0 <= lo <= s.len(),
        forall|j: int| 0 <= j < lo ==> is_white_space(#[trigger] s[j]),
        lo < s.len() ==> !is_white_space(s[lo]),
    ensures
        trim_start(s) == s.subrange(lo, s.len() as int),
    decreases lo,
{
    if lo == 0 {
        assert(s.subrange(0, s.len() as int) =~= s);
    } else {
        let t = s.drop_first();
        assert forall|j: int| 0 <= j < lo - 1 implies is_white_space(#[trigger] t[j]) by {
            assert(t[j] == s[j + 1]);
        }
        if lo < s.len() {
            assert(t[lo - 1] == s[lo]);
        }
        lemma_trim_start_at(t, lo - 1);
        assert(t.subrange(lo - 1, t.len() as int) =~= s.subrange(lo, s.len() as int));
    }
}

proof fn lemma_trim_end_at(s: Seq<char>, hi: int)
    requires
        0 <= hi <= s.len(),
        forall|j: int| hi <= j < s.len() ==> is_white_space(#[trigger] s[j]),
        hi > 0 ==> !is_white_space(s[hi - 1]),
    ensures
        trim_end(s) == s.subrange(0, hi),
    decreases s.len() - hi,
{
    if hi == s.len() {
        assert(s.subrange(0, hi) =~= s);
    } else {
        let t = s.drop_last();
        assert forall|j: int| hi <= j < t.len() implies is_white_space(#[trigger] t[j]) by {
            assert(t[j] == s[j]);
        }
        if hi > 0 {
            assert(t[hi - 1] == s[hi - 1]);
        }
        lemma_trim_end_at(t, hi);
        assert(t.subrange(0, hi) =~= s.subrange(0, hi));
    }
}

/// `line` without leading and trailing white space (as `str::trim`).
pub fn trim_line(line: &str) -> (r: &str)
    ensures
        r@ == trimmed(line@),
{
    let n = line.unicode_len();
    let mut lo: usize = 0;
    while lo < n && is_white_space_char(line.get_char(lo))
        invariant
            n == line@.len(),
            lo <= n,
            forall|j: int| 0 <= j < lo ==> is_white_space(#[trigger] line@[j]),
        decreases n - lo,
    {
        lo += 1;
    }
    let mut hi: usize = n;
    while hi > lo && is_white_space_char(line.get_char(hi - 1))
        invariant
            n == line@.len(),
            lo <= hi <= n,
            forall|j: int| hi <= j < n ==> is_white_space(#[trigger] line@[j]),
        decreases hi - lo,
    {
        hi -= 1;
    }
    proof {
        lemma_trim_start_at(line@, lo as int);
        let t = line@.subrange(lo as int, n as int);
        assert forall|j: int| hi - lo <= j < t.len() implies is_white_space(#[trigger] t[j]) by {
            assert(t[j] == line@[lo + j]);
        }
        if hi > lo {
            assert(t[hi - lo - 1] == line@[hi - 1]);
        }
        lemma_trim_end_at(t, hi - lo);
        assert(t.subrange(0, hi - lo) =~= line@.subrange(lo as int, hi as int));
    }
    line.substring_char(lo, hi)
}

/// The words that `shell_words::split` makes of a line, or `None` where it refuses the line (an
/// unclosed quote). Its rules (POSIX-shell quoting and escapes) are that crate's.
pub uninterp spec fn shell_split_result(line: Seq<char>) -> Option<Seq<Seq<char>>>;

/// `shell_words::split`: splits a line into words as a POSIX shell would. The contract claims
/// only that the result is a function of the line (named `shell_split_result`), `None` standing
/// for the crate's single parse error.
#[verifier::external_body]
fn shell_split(line: &str) -> (r: Option<Vec<String>>)
    ensures
        r is None <==> shell_split_result(line@) is None,
        r matches Some(v) ==> shell_split_result(line@) == Some(arg_views(v@)),
{
    shell_words::split(line).ok()
}

/// What the shell makes of an input line.
#[derive(Debug)]
pub enum ShellLine {
    /// Nothing but white space: the shell asks again.
    Blank,
    /// The line does not split into words (an unclosed quote).
    Unparsable,
    /// The words of the command.
    Tokens(Vec<String>),
}

/// What an input line is: blank once trimmed, or the words of the trimmed line, or
/// unparsable when it does not split into words.
pub fn classify_line(line: &str) -> (r: ShellLine)
    ensures
        trimmed(line@).len() == 0 ==> r is Blank,
        trimmed(line@).len() > 0 ==> match shell_split_result(trimmed(line@)) {
            None => r is Unparsable,
            Some(t) => r matches ShellLine::Tokens(v) && arg_views(v@) == t,
        },
{
    let t = trim_line(line);
    if t.unicode_len() == 0 {
        return ShellLine::Blank;
    }
    match shell_split(t) {
        None => ShellLine::Unparsable,
        Some(v) => ShellLine::Tokens(v),
    }
}

/// How the tool reaches the board.
#[derive(Debug, Clone, Copy, PartialEq, Eq, Structural)]
pub enum TransportMode {
    Auto,
    Raw,
    Serial,
}

/// State of an interactive session.
#[derive(Debug)]
pub struct SessionState {
    pub cwd: String,
    pub transport: TransportMode,
    pub connected_via: String,
    pub device_name: Option<String>,
    pub stats: bool,
}

/// The views of a sequence of strings.
pub open spec fn arg_views(args: Seq<String>) -> Seq<Seq<char>> {
    Seq::new(args.len(), |i: int| args[i]@)
}

/// The view of an optional string.
pub open spec fn opt_view(o: Option<String>) -> Option<Seq<char>> {
    match o {
        Some(s) => Some(s@),
        None => None,
    }
}

// ---------------------------------------------------------------------------
// Flags and positional arguments
// ---------------------------------------------------------------------------

/// The flags that the simple commands know.
#[derive(Debug, Clone, Copy, PartialEq, Eq, Structural)]
pub enum FlagKind {
    /// `-r`, `-R` or `--recursive`.
    Recursive,
    /// `-s` or `--sizes`.
    Sizes,
}

/// Whether an argument is a flag of the given kind.
pub open spec fn is_flag(kind: FlagKind, a: Seq<char>) -> bool {
    match kind {
        FlagKind::Recursive => a == "-r"@ || a == "-R"@ || a == "--recursive"@,
        FlagKind::Sizes => a == "-s"@ || a == "--sizes"@,
    }
}

/// The flag words of `pull`, `rm` and `ls`: `-r`, `-R` and `--recursive` ask for recursion
/// and `-s` and `--sizes` for sizes; no word of one kind is a flag of the other, and a path
/// such as `/logs` is no flag.
pub proof fn lemma_flag_words()
    ensures
        is_flag(FlagKind::Recursive, "-r"@),
        is_flag(FlagKind::Recursive, "-R"@),
        is_flag(FlagKind::Recursive, "--recursive"@),
        is_flag(FlagKind::Sizes, "-s"@),
        is_flag(FlagKind::Sizes, "--sizes"@),
        !is_flag(FlagKind::Recursive, "-s"@),
        !is_flag(FlagKind::Recursive, "--sizes"@),
        !is_flag(FlagKind::Sizes, "-r"@),
        !is_flag(FlagKind::Sizes, "--recursive"@),
        !is_flag(FlagKind::Recursive, "/logs"@),
        !is_flag(FlagKind::Sizes, "/logs"@),
{
    reveal_strlit("-r");
    reveal_strlit("-R");
    reveal_strlit("--recursive");
    reveal_strlit("-s");
    reveal_strlit("--sizes");
    reveal_strlit("/logs");
    assert("-r"@[1] == 'r' && "-R"@[1] == 'R' && "-s"@[1] == 's');
    assert("-r"@ != "-R"@);
    assert("-s"@ != "-r"@ && "-s"@ != "-R"@);
    assert("--sizes"@.len() != "--recursive"@.len());
    assert("--sizes"@ != "-r"@ && "--sizes"@ != "-R"@);
    assert("-r"@ != "--sizes"@ && "-r"@ != "-s"@);
    assert("--recursive"@ != "-s"@ && "--recursive"@ != "--sizes"@);
    assert("/logs"@.len() == 5);
    assert("/logs"@ != "-r"@ && "/logs"@ != "-R"@ && "/logs"@ != "--recursive"@);
    assert("/logs"@ != "-s"@ && "/logs"@ != "--sizes"@);
}

/// The arguments that are not flags of the given kind, in order.
pub open spec fn positionals(kind: FlagKind, args: Seq<Seq<char>>) -> Seq<Seq<char>>
    decreases args.len(),
{
    if args.len() == 0 {
        Seq::empty()
    } else {
        let p = positionals(kind, args.drop_last());
        if is_flag(kind, args.last()) {
            p
        } else {
            p.push(args.last())
        }
    }
}

/// Whether some argument is a flag of the given kind.
pub open spec fn has_flag(kind: FlagKind, args: Seq<Seq<char>>) -> bool {
    exists|i: int| 0 <= i < args.len() && is_flag(kind, #[trigger] args[i])
}

fn is_flag_str(kind: FlagKind, a: &str) -> (r: bool)
    ensures
        r == is_flag(kind, a@),
{
    match kind {
        FlagKind::Recursive => str_eq(a, "-r") || str_eq(a, "-R") || str_eq(a, "--recursive"),
        FlagKind::Sizes => str_eq(a, "-s") || str_eq(a, "--sizes"),
    }
}

/// Splits arguments into whether a flag of the given kind occurs and the
/// remaining (positional) arguments.
pub fn split_flags(kind: FlagKind, args: &[String]) -> (r: (bool, Vec<String>))
    ensures
        r.0 == has_flag(kind, arg_views(args@)),
        arg_views(r.1@) == positionals(kind, arg_views(args@)),
{
    let mut flag = false;
    let mut positional: Vec<String> = Vec::new();
    let mut i: usize = 0;
    while i < args.len()
        invariant
            i <= args@.len(),
            flag == has_flag(kind, arg_views(args@).subrange(0, i as int)),
            arg_views(positional@) == positionals(kind, arg_views(args@).subrange(0, i as int)),
        decreases args@.len() - i,
    {
        let a = args[i].as_str();
        let ghost pre = arg_views(args@).subrange(0, i as int);
        let ghost next = arg_views(args@).subrange(0, i + 1);
        proof {
            assert(next.drop_last() =~= pre);
            assert(next.last() == args@[i as int]@);
        }
        if is_flag_str(kind, a) {
            flag = true;
            assert(next[i as int] == args@[i as int]@);
        } else {
            let ghost before = positional@;
            positional.push(args[i].clone());
            proof {
                assert(arg_views(positional@) =~= arg_views(before).push(args@[i as int]@));
            }
        }
        proof {
            if has_flag(kind, next) {
                let j = choose|j: int| 0 <= j < next.len() && is_flag(kind, #[trigger] next[j]);
                if j < i {
                    assert(pre[j] == next[j]);
                }
            }
            if has_flag(kind, pre) {
                let j = choose|j: int| 0 <= j < pre.len() && is_flag(kind, #[trigger] pre[j]);
                assert(pre[j] == next[j]);
            }
        }
        i += 1;
    }
    assert(arg_views(args@).subrange(0, args@.len() as int) =~= arg_views(args@));
    (flag, positional)
}

/// The usage line of `pull`.
pub open spec fn pull_usage() -> Seq<char> {
    "usage: pull [-r] <remote_path> <local_path>"@
}

/// Arguments of `pull`/`cp`: an optional recursive flag anywhere, then
/// exactly a remote and a local path.
pub fn parse_pull_args(args: &[String]) -> (r: Result<(bool, String, String), String>)
    ensures
        ({
            let p = positionals(FlagKind::Recursive, arg_views(args@));
            &&& p.len() != 2 ==> (r matches Err(m) && m@ == pull_usage())
            &&& p.len() == 2 ==> (r matches Ok((rec, remote, local)) && rec == has_flag(
                FlagKind::Recursive,
                arg_views(args@),
            ) && remote@ == p[0] && local@ == p[1])
        }),
{
    let (recursive, positional) = split_flags(FlagKind::Recursive, args);
    if positional.len() != 2 {
        return Err("usage: pull [-r] <remote_path> <local_path>".to_owned());
    }
    assert(arg_views(positional@)[0] == positional@[0]@);
    assert(arg_views(positional@)[1] == positional@[1]@);
    Ok((recursive, positional[0].clone(), positional[1].clone()))
}

/// The usage line of `rm`.
pub open spec fn rm_usage() -> Seq<char> {
    "usage: rm [-r] <path>"@
}

/// Arguments of `rm`: an optional recursive flag anywhere and exactly one
/// path.
pub fn parse_rm_args(args: &[String]) -> (r: Result<(bool, String), String>)
    ensures
        ({
            let p = positionals(FlagKind::Recursive, arg_views(args@));
            &&& p.len() != 1 ==> (r matches Err(m) && m@ == rm_usage())
            &&& p.len() == 1 ==> (r matches Ok((rec, path)) && rec == has_flag(
                FlagKind::Recursive,
                arg_views(args@),
            ) && path@ == p[0])
        }),
{
    let (recursive, positional) = split_flags(FlagKind::Recursive, args);
    if positional.len() != 1 {
        return Err("usage: rm [-r] <path>".to_owned());
    }
    assert(arg_views(positional@)[0] == positional@[0]@);
    Ok((recursive, positional[0].clone()))
}

/// The usage line of `ls`.
pub open spec fn ls_usage() -> Seq<char> {
    "usage: ls [-s|--sizes] [path]"@
}

/// Arguments of `ls`: an optional sizes flag anywhere and at most one path.
pub fn parse_ls_args(args: &[String]) -> (r: Result<(bool, Option<String>), String>)
    ensures
        ({
            let p = positionals(FlagKind::Sizes, arg_views(args@));
            &&& p.len() > 1 ==> (r matches Err(m) && m@ == ls_usage())
            &&& p.len() <= 1 ==> (r matches Ok((sizes, path)) && sizes == has_flag(
                FlagKind::Sizes,
                arg_views(args@),
            ) && opt_view(path) == (if p.len() == 1 {
                Some(p[0])
            } else {
                None::<Seq<char>>
            }))
        }),
{
    let (sizes, positional) = split_flags(FlagKind::Sizes, args);
    if positional.len() > 1 {
        return Err("usage: ls [-s|--sizes] [path]".to_owned());
    }
    if positional.len() == 1 {
        assert(arg_views(positional@)[0] == positional@[0]@);
        Ok((sizes, Some(positional[0].clone())))
    } else {
        Ok((sizes, None))
    }
}

// ---------------------------------------------------------------------------
// Integers and `du`
// ---------------------------------------------------------------------------

/// An ASCII decimal digit.
pub open spec fn is_digit_char(c: char) -> bool {
    '0' <= c <= '9'
}

/// The value of a string of decimal digits.
pub open spec fn digits_value(s: Seq<char>) -> nat
    decreases s.len(),
{
    if s.len() == 0 {
        0
    } else {
        digits_value(s.drop_last()) * 10 + ((s.last() as u32) - 48) as nat
    }
}

/// The digits of an integer: the string without one leading `+`.
pub open spec fn usize_digits(s: Seq<char>) -> Seq<char> {
    if s.len() > 0 && s[0] == '+' {
        s.drop_first()
    } else {
        s
    }
}

/// Whether every character is an ASCII digit.
pub open spec fn all_digits(d: Seq<char>) -> bool {
    forall|k: int| 0 <= k < d.len() ==> is_digit_char(#[trigger] d[k])
}

/// What `str::parse::<usize>` accepts: an optional `+`, then one or more
/// ASCII digits whose value fits in a `usize`.
pub open spec fn parse_usize_spec(s: Seq<char>) -> Option<nat> {
    let d = usize_digits(s);
    if d.len() > 0 && all_digits(d) && digits_value(d) <= usize::MAX {
        Some(digits_value(d))
    } else {
        None
    }
}

proof fn lemma_digits_value_monotone(s: Seq<char>, i: int)
    requires
        0 <= i <= s.len(),
        forall|k: int| 0 <= k < s.len() ==> is_digit_char(#[trigger] s[k]),
    ensures
        digits_value(s.subrange(0, i)) <= digits_value(s),
    decreases s.len() - i,
{
    if i < s.len() {
        lemma_digits_value_monotone(s, i + 1);
        let t = s.subrange(0, i + 1);
        assert(t.drop_last() =~= s.subrange(0, i));
    } else {
        assert(s.subrange(0, i) =~= s);
    }
}

/// Parses a non-negative integer as `str::parse::<usize>` does.
pub fn parse_usize(s: &str) -> (r: Option<usize>)
    ensures
        match parse_usize_spec(s@) {
            Some(v) => r == Some(v as usize),
            None => r is None,
        },
{
    let n = s.unicode_len();
    let mut i: usize = 0;
    if n > 0 && s.get_char(0) == '+' {
        i = 1;
    }
    let ghost d = if s@.len() > 0 && s@[0] == '+' {
        s@.drop_first()
    } else {
        s@
    };
    let ghost start = i;
    assert(d =~= s@.subrange(start as int, n as int));
    if i == n {
        assert(d.len() == 0);
        return None;
    }
    let mut value: usize = 0;
    while i < n
        invariant
            start <= i <= n,
            n == s@.len(),
            d == s@.subrange(start as int, n as int),
            d == usize_digits(s@),
            d.len() > 0,
            forall|k: int| 0 <= k < i - start ==> is_digit_char(#[trigger] d[k]),
            value as nat == digits_value(d.subrange(0, i - start)),
        decreases n - i,
    {
        let c = s.get_char(i);
        if !('0' <= c && c <= '9') {
            assert(!is_digit_char(d[i - start]));
            assert(!all_digits(d));
            return None;
        }
        let digit = (c as u32 - 48) as usize;
        proof {
            let t = d.subrange(0, i - start + 1);
            assert(t.drop_last() =~= d.subrange(0, i - start));
            assert(t.last() == c);
        }
        match value.checked_mul(10) {
            Some(v10) => match v10.checked_add(digit) {
                Some(v) => {
                    value = v;
                },
                None => {
                    proof {
                        let t = d.subrange(0, i - start + 1);
                        if all_digits(d) {
                            lemma_digits_value_monotone(d, i - start + 1);
                        }
                    }
                    return None;
                },
            },
            None => {
                proof {
                    if all_digits(d) {
                        lemma_digits_value_monotone(d, i - start + 1);
                    }
                }
                return None;
            },
        }
        i += 1;
    }
    assert(d.subrange(0, n - start) =~= d);
    Some(value)
}

/// Whether `p` is a prefix of `s`.
pub open spec fn has_prefix(s: Seq<char>, p: Seq<char>) -> bool {
    p.len() <= s.len() && s.subrange(0, p.len() as int) == p
}

/// `s` with every leading repetition of the (non-empty) pattern `p`
/// removed, as `str::trim_start_matches` does.
pub open spec fn strip_prefix_all(s: Seq<char>, p: Seq<char>) -> Seq<char>
    decreases s.len(),
{
    if p.len() > 0 && has_prefix(s, p) {
        strip_prefix_all(s.subrange(p.len() as int, s.len() as int), p)
    } else {
        s
    }
}

fn starts_with_str(s: &str, p: &str) -> (r: bool)
    ensures
        r == has_prefix(s@, p@),
{
    let n = s.unicode_len();
    let m = p.unicode_len();
    if m > n {
        return false;
    }
    let mut i: usize = 0;
    while i < m
        invariant
            i <= m <= n,
            n == s@.len(),
            m == p@.len(),
            forall|k: int| 0 <= k < i ==> s@[k] == p@[k],
        decreases m - i,
    {
        if s.get_char(i) != p.get_char(i) {
            return false;
        }
        i += 1;
    }
    assert(s@.subrange(0, m as int) =~= p@);
    true
}

fn trim_start_all<'a>(s: &'a str, p: &str) -> (r: &'a str)
    requires
        p@.len() > 0,
    ensures
        r@ == strip_prefix_all(s@, p@),
{
    let mut t = s;
    let m = p.unicode_len();
    while starts_with_str(t, p)
        invariant
            m == p@.len(),
            m > 0,
            strip_prefix_all(s@, p@) == strip_prefix_all(t@, p@),
        decreases t@.len(),
    {
        let n = t.unicode_len();
        t = t.substring_char(m, n);
    }
    t
}

/// The usage line of `du`.
pub open spec fn du_usage() -> Seq<char> {
    "usage: du [-a|--all] [-r|--recursive] [-d|--depth N] [path]"@
}

/// The message for a depth that is not a non-negative integer.
pub open spec fn du_depth_error() -> Seq<char> {
    "du depth must be a non-negative integer"@
}

/// The arguments of `du` from position `i` on, given what was parsed
/// before it: all-flag, recursive flag, depth and positional arguments.
pub open spec fn du_parse_from(
    args: Seq<Seq<char>>,
    i: int,
    all: bool,
    recursive: bool,
    depth: Option<nat>,
    pos: Seq<Seq<char>>,
) -> Result<(bool, bool, Option<nat>, Seq<Seq<char>>), Seq<char>>
    decreases args.len() - i,
{
    if i < 0 || i >= args.len() {
        Ok((all, recursive, depth, pos))
    } else {
        let a = args[i];
        if a == "-a"@ || a == "--all"@ {
            du_parse_from(args, i + 1, true, recursive, depth, pos)
        } else if a == "-r"@ || a == "--recursive"@ {
            du_parse_from(args, i + 1, all, true, depth, pos)
        } else if a == "-d"@ || a == "--depth"@ {
            if i + 1 >= args.len() {
                Err(du_usage())
            } else {
                match parse_usize_spec(args[i + 1]) {
                    Some(v) => du_parse_from(args, i + 2, all, recursive, Some(v), pos),
                    None => Err(du_depth_error()),
                }
            }
        } else if has_prefix(a, "--depth="@) {
            match parse_usize_spec(strip_prefix_all(a, "--depth="@)) {
                Some(v) => du_parse_from(args, i + 1, all, recursive, Some(v), pos),
                None => Err(du_depth_error()),
            }
        } else {
            du_parse_from(args, i + 1, all, recursive, depth, pos.push(a))
        }
    }
}

/// The arguments of `du`: flags `-a`/`--all`, `-r`/`--recursive`, a depth
/// as `-d N`, `--depth N` or `--depth=N` (the last one given wins), and at
/// most one path.
pub open spec fn du_args_spec(args: Seq<Seq<char>>) -> Result<
    (bool, bool, Option<nat>, Option<Seq<char>>),
    Seq<char>,
> {
    match du_parse_from(args, 0, false, false, None, Seq::empty()) {
        Ok((all, recursive, depth, pos)) => if pos.len() > 1 {
            Err(du_usage())
        } else {
            Ok(
                (
                    all,
                    recursive,
                    depth,
                    if pos.len() == 1 {
                        Some(pos[0])
                    } else {
                        None
                    },
                ),
            )
        },
        Err(m) => Err(m),
    }
}

/// A `du` parse result with the recursive flag set.
pub open spec fn with_recursive(
    r: Result<(bool, bool, Option<nat>, Option<Seq<char>>), Seq<char>>,
) -> Result<(bool, bool, Option<nat>, Option<Seq<char>>), Seq<char>> {
    match r {
        Ok((a, _, d, p)) => Ok((a, true, d, p)),
        Err(m) => Err(m),
    }
}

/// A `du` parse result with the all flag set.
pub open spec fn with_all(
    r: Result<(bool, bool, Option<nat>, Option<Seq<char>>), Seq<char>>,
) -> Result<(bool, bool, Option<nat>, Option<Seq<char>>), Seq<char>> {
    match r {
        Ok((_, rc, d, p)) => Ok((true, rc, d, p)),
        Err(m) => Err(m),
    }
}

spec fn parse_with_recursive(
    r: Result<(bool, bool, Option<nat>, Seq<Seq<char>>), Seq<char>>,
) -> Result<(bool, bool, Option<nat>, Seq<Seq<char>>), Seq<char>> {
    match r {
        Ok((a, _, d, p)) => Ok((a, true, d, p)),
        Err(m) => Err(m),
    }
}

spec fn parse_with_all(
    r: Result<(bool, bool, Option<nat>, Seq<Seq<char>>), Seq<char>>,
) -> Result<(bool, bool, Option<nat>, Seq<Seq<char>>), Seq<char>> {
    match r {
        Ok((_, rc, d, p)) => Ok((true, rc, d, p)),
        Err(m) => Err(m),
    }
}

proof fn lemma_du_shift(
    x: Seq<Seq<char>>,
    rest: Seq<Seq<char>>,
    i: int,
    all: bool,
    recursive: bool,
    depth: Option<nat>,
    pos: Seq<Seq<char>>,
)
    requires
        0 <= i,
    ensures
        du_parse_from(x + rest, x.len() + i, all, recursive, depth, pos) == du_parse_from(
            rest,
            i,
            all,
            recursive,
            depth,
            pos,
        ),
    decreases rest.len() - i,
{
    let args = x + rest;
    if i < rest.len() {
        let a = rest[i];
        assert(args[x.len() + i] == a);
        if i + 1 < rest.len() {
            assert(args[x.len() + i + 1] == rest[i + 1]);
        }
        if a == "-a"@ || a == "--all"@ {
            lemma_du_shift(x, rest, i + 1, true, recursive, depth, pos);
        } else if a == "-r"@ || a == "--recursive"@ {
            lemma_du_shift(x, rest, i + 1, all, true, depth, pos);
        } else if a == "-d"@ || a == "--depth"@ {
            if i + 1 < rest.len() {
                match parse_usize_spec(rest[i + 1]) {
                    Some(v) => lemma_du_shift(x, rest, i + 2, all, recursive, Some(v), pos),
                    None => {},
                }
            }
        } else if has_prefix(a, "--depth="@) {
            match parse_usize_spec(strip_prefix_all(a, "--depth="@)) {
                Some(v) => lemma_du_shift(x, rest, i + 1, all, recursive, Some(v), pos),
                None => {},
            }
        } else {
            lemma_du_shift(x, rest, i + 1, all, recursive, depth, pos.push(a));
        }
    }
}

proof fn lemma_du_recursive_flag(
    args: Seq<Seq<char>>,
    i: int,
    all: bool,
    r0: bool,
    depth: Option<nat>,
    pos: Seq<Seq<char>>,
)
    requires
        0 <= i,
    ensures
        du_parse_from(args, i, all, true, depth, pos) == parse_with_recursive(
            du_parse_from(args, i, all, r0, depth, pos),
        ),
    decreases args.len() - i,
{
    if i < args.len() {
        let a = args[i];
        if a == "-a"@ || a == "--all"@ {
            lemma_du_recursive_flag(args, i + 1, true, r0, depth, pos);
        } else if a == "-r"@ || a == "--recursive"@ {
            lemma_du_recursive_flag(args, i + 1, all, true, depth, pos);
        } else if a == "-d"@ || a == "--depth"@ {
            if i + 1 < args.len() {
                match parse_usize_spec(args[i + 1]) {
                    Some(v) => lemma_du_recursive_flag(args, i + 2, all, r0, Some(v), pos),
                    None => {},
                }
            }
        } else if has_prefix(a, "--depth="@) {
            match parse_usize_spec(strip_prefix_all(a, "--depth="@)) {
                Some(v) => lemma_du_recursive_flag(args, i + 1, all, r0, Some(v), pos),
                None => {},
            }
        } else {
            lemma_du_recursive_flag(args, i + 1, all, r0, depth, pos.push(a));
        }
    }
}

proof fn lemma_du_all_flag(
    args: Seq<Seq<char>>,
    i: int,
    a0: bool,
    recursive: bool,
    depth: Option<nat>,
    pos: Seq<Seq<char>>,
)
    requires
        0 <= i,
    ensures
        du_parse_from(args, i, true, recursive, depth, pos) == parse_with_all(
            du_parse_from(args, i, a0, recursive, depth, pos),
        ),
    decreases args.len() - i,
{
    if i < args.len() {
        let a = args[i];
        if a == "-a"@ || a == "--all"@ {
            lemma_du_all_flag(args, i + 1, true, recursive, depth, pos);
        } else if a == "-r"@ || a == "--recursive"@ {
            lemma_du_all_flag(args, i + 1, a0, true, depth, pos);
        } else if a == "-d"@ || a == "--depth"@ {
            if i + 1 < args.len() {
                match parse_usize_spec(args[i + 1]) {
                    Some(v) => lemma_du_all_flag(args, i + 2, a0, recursive, Some(v), pos),
                    None => {},
                }
            }
        } else if has_prefix(a, "--depth="@) {
            match parse_usize_spec(strip_prefix_all(a, "--depth="@)) {
                Some(v) => lemma_du_all_flag(args, i + 1, a0, recursive, Some(v), pos),
                None => {},
            }
        } else {
            lemma_du_all_flag(args, i + 1, a0, recursive, depth, pos.push(a));
        }
    }
}

/// The flags of `du`: `-r` and `--recursive` put in front of any arguments set the recursive
/// flag and change nothing else (neither is ever taken as a path), and likewise `-a` and
/// `--all` set the all flag.
pub proof fn lemma_du_flags(rest: Seq<Seq<char>>)
    ensures
        du_args_spec(seq!["-r"@] + rest) == with_recursive(du_args_spec(rest)),
        du_args_spec(seq!["--recursive"@] + rest) == with_recursive(du_args_spec(rest)),
        du_args_spec(seq!["-a"@] + rest) == with_all(du_args_spec(rest)),
        du_args_spec(seq!["--all"@] + rest) == with_all(du_args_spec(rest)),
{
    reveal_strlit("-r");
    reveal_strlit("--recursive");
    reveal_strlit("-a");
    reveal_strlit("--all");
    reveal_strlit("-d");
    reveal_strlit("--depth");
    reveal_strlit("--depth=");
    let e: Seq<Seq<char>> = Seq::empty();
    lemma_du_front("-r"@, rest, true);
    lemma_du_front("--recursive"@, rest, true);
    lemma_du_front("-a"@, rest, false);
    lemma_du_front("--all"@, rest, false);
    lemma_du_recursive_flag(rest, 0, false, false, None, e);
    lemma_du_all_flag(rest, 0, false, false, None, e);
}

proof fn lemma_du_front(x: Seq<char>, rest: Seq<Seq<char>>, recursive_flag: bool)
    requires
        recursive_flag ==> (x == "-r"@ || x == "--recursive"@),
        !recursive_flag ==> (x == "-a"@ || x == "--all"@),
    ensures
        du_parse_from(seq![x] + rest, 0, false, false, None, Seq::empty()) == (if recursive_flag {
            du_parse_from(rest, 0, false, true, None, Seq::empty())
        } else {
            du_parse_from(rest, 0, true, false, None, Seq::empty())
        }),
{
    reveal_strlit("-r");
    reveal_strlit("--recursive");
    reveal_strlit("-a");
    reveal_strlit("--all");
    reveal_strlit("-d");
    reveal_strlit("--depth");
    reveal_strlit("--depth=");
    let e: Seq<Seq<char>> = Seq::empty();
    let xs = seq![x];
    let args = xs + rest;
    assert(args[0] == x);
    assert(x.len() >= 2 && x[1] != 'd');
    assert(!has_prefix(x, "--depth="@)) by {
        if has_prefix(x, "--depth="@) {
            assert(x.subrange(0, 8)[2] == 'd');
        }
    }
    if recursive_flag {
        assert(x != "-a"@ && x != "--all"@ && x != "-d"@ && x != "--depth"@) by {
            assert(x[1] == 'r' || x[2] == 'r');
        }
        lemma_du_shift(xs, rest, 0, false, true, None, e);
    } else {
        assert(x != "-d"@ && x != "--depth"@) by {
            assert(x[1] == 'a' || x[2] == 'a');
        }
        lemma_du_shift(xs, rest, 0, true, false, None, e);
    }
}

/// A `du` parse result whose depth is `v` unless a depth was given.
pub open spec fn with_default_depth(
    v: nat,
    r: Result<(bool, bool, Option<nat>, Option<Seq<char>>), Seq<char>>,
) -> Result<(bool, bool, Option<nat>, Option<Seq<char>>), Seq<char>> {
    match r {
        Ok((a, rc, d, p)) => Ok((a, rc, if d is Some { d } else { Some(v) }, p)),
        Err(m) => Err(m),
    }
}

spec fn parse_with_default_depth(
    v: nat,
    r: Result<(bool, bool, Option<nat>, Seq<Seq<char>>), Seq<char>>,
) -> Result<(bool, bool, Option<nat>, Seq<Seq<char>>), Seq<char>> {
    match r {
        Ok((a, rc, d, p)) => Ok((a, rc, if d is Some { d } else { Some(v) }, p)),
        Err(m) => Err(m),
    }
}

proof fn lemma_du_depth(
    args: Seq<Seq<char>>,
    i: int,
    all: bool,
    recursive: bool,
    v: nat,
    pos: Seq<Seq<char>>,
)
    requires
        0 <= i,
    ensures
        du_parse_from(args, i, all, recursive, Some(v), pos) == parse_with_default_depth(
            v,
            du_parse_from(args, i, all, recursive, None, pos),
        ),
        du_parse_from(args, i, all, recursive, Some(v), pos) matches Ok((_, _, d, _)) ==> d is Some,
    decreases args.len() - i,
{
    if i < args.len() {
        let a = args[i];
        if a == "-a"@ || a == "--all"@ {
            lemma_du_depth(args, i + 1, true, recursive, v, pos);
        } else if a == "-r"@ || a == "--recursive"@ {
            lemma_du_depth(args, i + 1, all, true, v, pos);
        } else if a == "-d"@ || a == "--depth"@ {
            if i + 1 < args.len() {
                match parse_usize_spec(args[i + 1]) {
                    Some(w) => lemma_du_depth(args, i + 2, all, recursive, w, pos),
                    None => {},
                }
            }
        } else if has_prefix(a, "--depth="@) {
            match parse_usize_spec(strip_prefix_all(a, "--depth="@)) {
                Some(w) => lemma_du_depth(args, i + 1, all, recursive, w, pos),
                None => {},
            }
        } else {
            lemma_du_depth(args, i + 1, all, recursive, v, pos.push(a));
        }
    }
}

/// The depth option of `du`: `-d N` or `--depth N` in front of any arguments sets the depth
/// to N unless a later depth option overrides it, and changes nothing else; a depth that is
/// no non-negative integer is refused with its message, and a depth option without a value
/// is a usage error.
pub proof fn lemma_du_depth_option(flag: Seq<char>, n: Seq<char>, rest: Seq<Seq<char>>)
    requires
        flag == "-d"@ || flag == "--depth"@,
    ensures
        parse_usize_spec(n) matches Some(v) ==> du_args_spec(seq![flag, n] + rest)
            == with_default_depth(v, du_args_spec(rest)),
        parse_usize_spec(n) is None ==> du_args_spec(seq![flag, n] + rest) == Err::<
            (bool, bool, Option<nat>, Option<Seq<char>>),
            Seq<char>,
        >(du_depth_error()),
        du_args_spec(seq![flag]) == Err::<(bool, bool, Option<nat>, Option<Seq<char>>), Seq<char>>(
            du_usage(),
        ),
{
    reveal_strlit("-r");
    reveal_strlit("--recursive");
    reveal_strlit("-a");
    reveal_strlit("--all");
    reveal_strlit("-d");
    reveal_strlit("--depth");
    let e: Seq<Seq<char>> = Seq::empty();
    let xs = seq![flag, n];
    let args = xs + rest;
    assert(args[0] == flag && args[1] == n);
    assert(flag != "-a"@ && flag != "--all"@ && flag != "-r"@ && flag != "--recursive"@) by {
        assert(flag[1] == 'd' || flag[2] == 'd');
    }
    assert(seq![flag][0] == flag);
    match parse_usize_spec(n) {
        Some(v) => {
            lemma_du_shift(xs, rest, 0, false, false, Some(v), e);
            lemma_du_depth(rest, 0, false, false, v, e);
        },
        None => {},
    }
}

/// The view of an optional depth.
pub open spec fn opt_nat(o: Option<usize>) -> Option<nat> {
    match o {
        Some(v) => Some(v as nat),
        None => None,
    }
}

/// Parses the arguments of `du`.
pub fn parse_du_args(args: &[String]) -> (r: Result<
    (bool, bool, Option<usize>, Option<String>),
    String,
>)
    ensures
        match du_args_spec(arg_views(args@)) {
            Ok((all, recursive, depth, path)) => r matches Ok((a, rc, d, p)) && a == all && rc
                == recursive && opt_nat(d) == depth && opt_view(p) == path,
            Err(m) => r matches Err(e) && e@ == m,
        },
{
    proof {
        reveal_strlit("--depth=");
    }
    let ghost av = arg_views(args@);
    let mut all = false;
    let mut recursive = false;
    let mut depth: Option<usize> = None;
    let mut positional: Vec<String> = Vec::new();
    let mut i: usize = 0;
    assert(arg_views(positional@) =~= Seq::<Seq<char>>::empty());
    while i < args.len()
        invariant
            i <= args@.len(),
            av == arg_views(args@),
            du_parse_from(av, 0, false, false, None, Seq::empty()) == du_parse_from(
                av,
                i as int,
                all,
                recursive,
                opt_nat(depth),
                arg_views(positional@),
            ),
        decreases args@.len() - i,
    {
        let a = args[i].as_str();
        assert(av[i as int] == a@);
        if str_eq(a, "-a") || str_eq(a, "--all") {
            all = true;
            i += 1;
        } else if str_eq(a, "-r") || str_eq(a, "--recursive") {
            recursive = true;
            i += 1;
        } else if str_eq(a, "-d") || str_eq(a, "--depth") {
            if i + 1 >= args.len() {
                return Err("usage: du [-a|--all] [-r|--recursive] [-d|--depth N] [path]".to_owned());
            }
            let next = args[i + 1].as_str();
            assert(av[i + 1] == next@);
            match parse_usize(next) {
                Some(v) => {
                    depth = Some(v);
                },
                None => {
                    return Err("du depth must be a non-negative integer".to_owned());
                },
            }
            i += 2;
        } else if starts_with_str(a, "--depth=") {
            proof {
                reveal_strlit("--depth=");
            }
            let val = trim_start_all(a, "--depth=");
            match parse_usize(val) {
                Some(v) => {
                    depth = Some(v);
                },
                None => {
                    return Err("du depth must be a non-negative integer".to_owned());
                },
            }
            i += 1;
        } else {
            let ghost before = positional@;
            positional.push(args[i].clone());
            proof {
                assert(arg_views(positional@) =~= arg_views(before).push(a@));
            }
            i += 1;
        }
    }
    if positional.len() > 1 {
        return Err("usage: du [-a|--all] [-r|--recursive] [-d|--depth N] [path]".to_owned());
    }
    if positional.len() == 1 {
        assert(arg_views(positional@)[0] == positional@[0]@);
        Ok((all, recursive, depth, Some(positional[0].clone())))
    } else {
        Ok((all, recursive, depth, None))
    }
}

// ---------------------------------------------------------------------------
// Small argument checks
// ---------------------------------------------------------------------------

/// The first argument, or the given message when there is none.
pub fn require_arg<'a>(args: &'a [String], msg: &str) -> (r: Result<&'a str, String>)
    ensures
        args@.len() > 0 ==> (r matches Ok(s) && s@ == args@[0]@),
        args@.len() == 0 ==> (r matches Err(m) && m@ == msg@),
{
    if args.len() > 0 {
        Ok(args[0].as_str())
    } else {
        Err(msg.to_owned())
    }
}

/// Erasing the storage needs exactly the argument `--yes`.
pub fn require_erase_storage_confirmation(args: &[String]) -> (r: Result<(), String>)
    ensures
        (args@.len() == 1 && args@[0]@ == "--yes"@) ==> r is Ok,
        !(args@.len() == 1 && args@[0]@ == "--yes"@) ==> (r matches Err(m) && m@
            == "confirmation required: erase-storage --yes"@),
{
    if args.len() == 1 && str_eq(args[0].as_str(), "--yes") {
        return Ok(());
    }
    Err("confirmation required: erase-storage --yes".to_owned())
}

/// The label of a transport mode.
pub fn mode_label(mode: TransportMode) -> (r: &'static str)
    ensures
        r@ == (match mode {
            TransportMode::Auto => "auto"@,
            TransportMode::Raw => "raw"@,
            TransportMode::Serial => "serial"@,
        }),
{
    match mode {
        TransportMode::Auto => "auto",
        TransportMode::Raw => "raw",
        TransportMode::Serial => "serial",
    }
}

/// The command word of a line, for statistics.
pub fn command_label(tokens: &[String]) -> (r: &str)
    ensures
        tokens@.len() > 0 ==> r@ == tokens@[0]@,
        tokens@.len() == 0 ==> r@ == "<empty>"@,
{
    if tokens.len() > 0 {
        tokens[0].as_str()
    } else {
        "<empty>"
    }
}

/// Whether a command word restarts the board.
pub open spec fn reboots_board(cmd: Seq<char>) -> bool {
    cmd == "erasestorage"@ || cmd == "erase-storage"@ || cmd == "reset"@ || cmd == "panic"@
}

/// Whether a line's command restarts the board (the tool then waits for it
/// to come back).
pub fn command_reboots_board(tokens: &[String]) -> (r: bool)
    ensures
        r == (tokens@.len() > 0 && reboots_board(tokens@[0]@)),
{
    if tokens.len() == 0 {
        return false;
    }
    let c = tokens[0].as_str();
    str_eq(c, "erasestorage") || str_eq(c, "erase-storage") || str_eq(c, "reset") || str_eq(
        c,
        "panic",
    )
}

// ---------------------------------------------------------------------------
// Command lines
// ---------------------------------------------------------------------------

/// A parsed shell command.
#[derive(Debug)]
#[allow(inconsistent_fields)]
pub enum ShellCommand {
    Help,
    Pwd,
    Ls { sizes: bool, path: Option<String> },
    Du { all: bool, recursive: bool, depth: Option<usize>, path: Option<String> },
    Cd { path: String },
    Cat { path: String },
    Pull { recursive: bool, remote: String, local: String },
    Rm { recursive: bool, path: String },
    EraseStorage,
    Reset,
    Panic { message: String },
    Info,
    Exit,
}

/// Arguments joined with single spaces.
pub open spec fn join_spaces(args: Seq<Seq<char>>) -> Seq<char>
    decreases args.len(),
{
    if args.len() == 0 {
        Seq::empty()
    } else if args.len() == 1 {
        args[0]
    } else {
        join_spaces(args.drop_last()) + " "@ + args.last()
    }
}

/// The message of a `panic` command.
pub open spec fn panic_message(args: Seq<Seq<char>>) -> Seq<char> {
    if args.len() == 0 {
        "panic requested via shell"@
    } else {
        join_spaces(args)
    }
}

fn join_args(args: &[String]) -> (r: String)
    ensures
        r@ == join_spaces(arg_views(args@)),
{
    let mut s = String::new();
    let mut i: usize = 0;
    let ghost av = arg_views(args@);
    while i < args.len()
        invariant
            i <= args@.len(),
            av == arg_views(args@),
            s@ == join_spaces(av.subrange(0, i as int)),
        decreases args@.len() - i,
    {
        proof {
            let t = av.subrange(0, i + 1);
            assert(t.drop_last() =~= av.subrange(0, i as int));
            assert(t.last() == args@[i as int]@);
        }
        if i > 0 {
            s.append(" ");
        } else {
            assert(s@ =~= Seq::<char>::empty());
            assert(av.subrange(0, 1)[0] == args@[0]@);
        }
        s.append(args[i].as_str());
        proof {
            if i == 0 {
                assert(s@ =~= args@[0]@);
            }
        }
        i += 1;
    }
    assert(av.subrange(0, args@.len() as int) =~= av);
    s
}

/// The command that a command word names.
#[derive(Debug, Clone, Copy, PartialEq, Eq, Structural)]
pub enum CommandKind {
    Help,
    Pwd,
    Ls,
    Du,
    Cd,
    Cat,
    Pull,
    Rm,
    EraseStorage,
    Reset,
    Panic,
    Info,
    Exit,
    Unknown,
}

/// The command that a command word names (`cp` is `pull`,
/// `erasestorage` is `erase-storage`).
pub open spec fn command_kind_of(cmd: Seq<char>) -> CommandKind {
    if cmd == "help"@ {
        CommandKind::Help
    } else if cmd == "pwd"@ {
        CommandKind::Pwd
    } else if cmd == "ls"@ {
        CommandKind::Ls
    } else if cmd == "du"@ {
        CommandKind::Du
    } else if cmd == "cd"@ {
        CommandKind::Cd
    } else if cmd == "cat"@ {
        CommandKind::Cat
    } else if cmd == "pull"@ || cmd == "cp"@ {
        CommandKind::Pull
    } else if cmd == "rm"@ {
        CommandKind::Rm
    } else if cmd == "erasestorage"@ || cmd == "erase-storage"@ {
        CommandKind::EraseStorage
    } else if cmd == "reset"@ {
        CommandKind::Reset
    } else if cmd == "panic"@ {
        CommandKind::Panic
    } else if cmd == "info"@ {
        CommandKind::Info
    } else if cmd == "exit"@ {
        CommandKind::Exit
    } else {
        CommandKind::Unknown
    }
}

/// The command that a command word names.
pub fn command_kind(cmd: &str) -> (r: CommandKind)
    ensures
        r == command_kind_of(cmd@),
{
    if str_eq(cmd, "help") {
        CommandKind::Help
    } else if str_eq(cmd, "pwd") {
        CommandKind::Pwd
    } else if str_eq(cmd, "ls") {
        CommandKind::Ls
    } else if str_eq(cmd, "du") {
        CommandKind::Du
    } else if str_eq(cmd, "cd") {
        CommandKind::Cd
    } else if str_eq(cmd, "cat") {
        CommandKind::Cat
    } else if str_eq(cmd, "pull") || str_eq(cmd, "cp") {
        CommandKind::Pull
    } else if str_eq(cmd, "rm") {
        CommandKind::Rm
    } else if str_eq(cmd, "erasestorage") || str_eq(cmd, "erase-storage") {
        CommandKind::EraseStorage
    } else if str_eq(cmd, "reset") {
        CommandKind::Reset
    } else if str_eq(cmd, "panic") {
        CommandKind::Panic
    } else if str_eq(cmd, "info") {
        CommandKind::Info
    } else if str_eq(cmd, "exit") {
        CommandKind::Exit
    } else {
        CommandKind::Unknown
    }
}

/// Parses a command line (already split into words) into a command.
///
/// `tokens[0]` names the command and the rest are its arguments. Unknown
/// commands and malformed arguments yield the message the shell shows.
pub fn parse_command(tokens: &[String]) -> (r: Result<ShellCommand, String>)
    requires
        tokens@.len() >= 1,
    ensures
        ({
            let cmd = tokens@[0]@;
            let args = arg_views(tokens@).drop_first();
            match command_kind_of(cmd) {
                CommandKind::Help => r matches Ok(ShellCommand::Help),
                CommandKind::Pwd => r matches Ok(ShellCommand::Pwd),
                CommandKind::Ls => {
                    let p = positionals(FlagKind::Sizes, args);
                    &&& p.len() > 1 ==> (r matches Err(m) && m@ == ls_usage())
                    &&& p.len() <= 1 ==> (r matches Ok(ShellCommand::Ls { sizes, path }) && sizes
                        == has_flag(FlagKind::Sizes, args) && opt_view(path) == (if p.len() == 1 {
                        Some(p[0])
                    } else {
                        None::<Seq<char>>
                    }))
                },
                CommandKind::Du => match du_args_spec(args) {
                    Ok((all, recursive, depth, path)) => r matches Ok(
                        ShellCommand::Du { all: a, recursive: rc, depth: d, path: p },
                    ) && a == all && rc == recursive && opt_nat(d) == depth && opt_view(p) == path,
                    Err(m) => r matches Err(e) && e@ == m,
                },
                CommandKind::Cd => r matches Ok(ShellCommand::Cd { path }) && path@ == (if args.len()
                    > 0 {
                    args[0]
                } else {
                    "/"@
                }),
                CommandKind::Cat => {
                    &&& args.len() > 0 ==> (r matches Ok(ShellCommand::Cat { path }) && path@
                        == args[0])
                    &&& args.len() == 0 ==> (r matches Err(m) && m@
                        == "cat requires a path argument"@)
                },
                CommandKind::Pull => {
                    let p = positionals(FlagKind::Recursive, args);
                    &&& p.len() != 2 ==> (r matches Err(m) && m@ == pull_usage())
                    &&& p.len() == 2 ==> (r matches Ok(
                        ShellCommand::Pull { recursive, remote, local },
                    ) && recursive == has_flag(FlagKind::Recursive, args) && remote@ == p[0]
                        && local@ == p[1])
                },
                CommandKind::Rm => {
                    let p = positionals(FlagKind::Recursive, args);
                    &&& p.len() != 1 ==> (r matches Err(m) && m@ == rm_usage())
                    &&& p.len() == 1 ==> (r matches Ok(ShellCommand::Rm { recursive, path })
                        && recursive == has_flag(FlagKind::Recursive, args) && path@ == p[0])
                },
                CommandKind::EraseStorage => {
                    &&& (args.len() == 1 && args[0] == "--yes"@) ==> (r matches Ok(
                        ShellCommand::EraseStorage,
                    ))
                    &&& !(args.len() == 1 && args[0] == "--yes"@) ==> (r matches Err(m) && m@
                        == "confirmation required: erase-storage --yes"@)
                },
                CommandKind::Reset => {
                    &&& args.len() == 0 ==> (r matches Ok(ShellCommand::Reset))
                    &&& args.len() > 0 ==> (r matches Err(m) && m@ == "usage: reset"@)
                },
                CommandKind::Panic => r matches Ok(ShellCommand::Panic { message }) && message@
                    == panic_message(args),
                CommandKind::Info => r matches Ok(ShellCommand::Info),
                CommandKind::Exit => r matches Ok(ShellCommand::Exit),
                CommandKind::Unknown => r matches Err(m) && m@ == "unknown command: "@ + cmd,
            }
        }),
{
    let cmd = tokens[0].as_str();
    let args = slice_tail(tokens);
    proof {
        assert(arg_views(args@) =~= arg_views(tokens@).drop_first());
    }
    match command_kind(cmd) {
        CommandKind::Help => Ok(ShellCommand::Help),
        CommandKind::Pwd => Ok(ShellCommand::Pwd),
        CommandKind::Ls => match parse_ls_args(args) {
            Ok((sizes, path)) => Ok(ShellCommand::Ls { sizes, path }),
            Err(m) => Err(m),
        },
        CommandKind::Du => match parse_du_args(args) {
            Ok((all, recursive, depth, path)) => Ok(ShellCommand::Du { all, recursive, depth, path }),
            Err(m) => Err(m),
        },
        CommandKind::Cd => {
            let path = if args.len() > 0 {
                args[0].as_str()
            } else {
                "/"
            };
            Ok(ShellCommand::Cd { path: path.to_owned() })
        },
        CommandKind::Cat => match require_arg(args, "cat requires a path argument") {
            Ok(path) => Ok(ShellCommand::Cat { path: path.to_owned() }),
            Err(m) => Err(m),
        },
        CommandKind::Pull => match parse_pull_args(args) {
            Ok((recursive, remote, local)) => Ok(ShellCommand::Pull { recursive, remote, local }),
            Err(m) => Err(m),
        },
        CommandKind::Rm => match parse_rm_args(args) {
            Ok((recursive, path)) => Ok(ShellCommand::Rm { recursive, path }),
            Err(m) => Err(m),
        },
        CommandKind::EraseStorage => match require_erase_storage_confirmation(args) {
            Ok(()) => Ok(ShellCommand::EraseStorage),
            Err(m) => Err(m),
        },
        CommandKind::Reset => {
            if args.len() > 0 {
                Err("usage: reset".to_owned())
            } else {
                Ok(ShellCommand::Reset)
            }
        },
        CommandKind::Panic => {
            let message = if args.len() == 0 {
                "panic requested via shell".to_owned()
            } else {
                join_args(args)
            };
            Ok(ShellCommand::Panic { message })
        },
        CommandKind::Info => Ok(ShellCommand::Info),
        CommandKind::Exit => Ok(ShellCommand::Exit),
        CommandKind::Unknown => {
            let mut m = "unknown command: ".to_owned();
            m.append(cmd);
            Err(m)
        },
    }
}

fn slice_tail(tokens: &[String]) -> (r: &[String])
    requires
        tokens@.len() >= 1,
    ensures
        r@ == tokens@.drop_first(),
{
    let r = vstd::slice::slice_subrange(tokens, 1, tokens.len());
    assert(r@ =~= tokens@.drop_first());
    r
}

} // verus!
