//! What the interactive shell shows: prompt styling, compact error lines,
//! disconnect detection and the column layout of directory listings.
use vstd::prelude::*;

verus! {

/// The escape sequence that opens an ANSI style.
pub open spec fn ansi_open() -> Seq<char> {
    seq!['\x1b', '[']
}

/// The escape sequence that resets all ANSI styles.
pub open spec fn ansi_reset() -> Seq<char> {
    seq!['\x1b', '[', '0', 'm']
}

/// `text` wrapped in the ANSI style `ansi` and a reset.
pub open spec fn ansi_wrapped(text: Seq<char>, ansi: Seq<char>) -> Seq<char> {
    ansi_open() + ansi + seq!['m'] + text + ansi_reset()
}

/// Terminal styling of the shell: with `color` off every label is plain text.
#[derive(Clone, Copy)]
pub struct UiStyle {
    pub color: bool,
}

/// The prompt shown before each command line.
pub open spec fn prompt_text(color: bool, cwd: Seq<char>, connected: Seq<char>) -> Seq<char> {
    if !color {
        seq!['a', 's', 't', 'e', 'r', 'i', 'a', ':'] + cwd + seq![' ', '['] + connected + seq![
            ']',
            '>',
            ' ',
        ]
    } else {
        ansi_wrapped(seq!['a', 's', 't', 'e', 'r', 'i', 'a'], seq!['1', ';', '3', '2']) + seq![
            ':',
        ] + ansi_wrapped(cwd, seq!['1', ';', '3', '4']) + seq![' ', '['] + ansi_wrapped(
            connected,
            seq!['3', '6'],
        ) + seq![']', '>', ' ']
    }
}

impl UiStyle {
    /// `text` wrapped in the ANSI style `ansi`.
    pub fn wrap(&self, text: &str, ansi: &str) -> (r: String)
        ensures
            r@ == ansi_wrapped(text@, ansi@),
    {
        proof {
            reveal_strlit("\x1b[");
            reveal_strlit("m");
            reveal_strlit("\x1b[0m");
        }
        let mut s = "\x1b[".to_owned();
        s.append(ansi);
        s.append("m");
        s.append(text);
        s.append("\x1b[0m");
        s
    }

    /// The shell prompt for the working directory `cwd` and the connection label.
    pub fn prompt(&self, cwd: &str, connected: &str) -> (r: String)
        ensures
            r@ == prompt_text(self.color, cwd@, connected@),
    {
        proof {
            reveal_strlit("asteria:");
            reveal_strlit("asteria");
            reveal_strlit(" [");
            reveal_strlit("]> ");
            reveal_strlit(":");
            reveal_strlit("1;32");
            reveal_strlit("1;34");
            reveal_strlit("36");
        }
        if !self.color {
            let mut s = "asteria:".to_owned();
            s.append(cwd);
            s.append(" [");
            s.append(connected);
            s.append("]> ");
            return s;
        }
        let mut s = self.wrap("asteria", "1;32");
        s.append(":");
        let c = self.wrap(cwd, "1;34");
        s.append(c.as_str());
        s.append(" [");
        let k = self.wrap(connected, "36");
        s.append(k.as_str());
        s.append("]> ");
        s
    }

    /// A dim label for informational output.
    pub fn info_label(&self, label: &str) -> (r: String)
        ensures
            r@ == (if self.color {
                ansi_wrapped(label@, seq!['9', '0'])
            } else {
                label@
            }),
    {
        proof {
            reveal_strlit("90");
        }
        if self.color {
            self.wrap(label, "90")
        } else {
            label.to_owned()
        }
    }

    /// A bold red label for errors.
    pub fn error_label(&self, label: &str) -> (r: String)
        ensures
            r@ == (if self.color {
                ansi_wrapped(label@, seq!['1', ';', '3', '1'])
            } else {
                label@
            }),
    {
        proof {
            reveal_strlit("1;31");
        }
        if self.color {
            self.wrap(label, "1;31")
        } else {
            label.to_owned()
        }
    }
}

/// The index of the first `'\n'` in `s` at or after `i`, or `s.len()` when there is none.
pub open spec fn newline_from(s: Seq<char>, i: int) -> int
    decreases s.len() - i,
{
    if i >= s.len() {
        s.len() as int
    } else if s[i] == '\n' {
        i
    } else {
        newline_from(s, i + 1)
    }
}

/// The first line of `s` as `str::lines` yields it: `None` for an empty text; the text up to the
/// first line feed otherwise, without a carriage return that directly precedes that line feed.
pub open spec fn first_line(s: Seq<char>) -> Option<Seq<char>> {
    if s.len() == 0 {
        None
    } else {
        let k = newline_from(s, 0);
        if k < s.len() && k > 0 && s[k - 1] == '\r' {
            Some(s.subrange(0, k - 1))
        } else {
            Some(s.subrange(0, k))
        }
    }
}

/// The most characters of an error line that the shell shows.
pub const ERROR_LINE_CAP: usize = 140;

/// The shown form of an error message: its first line, or a fixed text when it has none,
/// cut to `ERROR_LINE_CAP` characters followed by an ellipsis when longer.
pub open spec fn compact_text(s: Seq<char>) -> Seq<char> {
    let line = match first_line(s) {
        Some(l) => l,
        None => seq![
            'u', 'n', 'k', 'n', 'o', 'w', 'n', ' ', 'c', 'o', 'n', 'n', 'e', 'c', 't', 'i', 'o', 'n',
            ' ', 'e', 'r', 'r', 'o', 'r',
        ],
    };
    if line.len() > ERROR_LINE_CAP {
        line.subrange(0, ERROR_LINE_CAP as int) + seq!['.', '.', '.']
    } else {
        line
    }
}

proof fn lemma_newline_from_bounds(s: Seq<char>, i: int)
    requires
        0 <= i <= s.len(),
    ensures
        i <= newline_from(s, i) <= s.len(),
        newline_from(s, i) < s.len() ==> s[newline_from(s, i)] == '\n',
        forall|j: int| i <= j < newline_from(s, i) ==> s[j] != '\n',
    decreases s.len() - i,
{
    if i < s.len() && s[i] != '\n' {
        lemma_newline_from_bounds(s, i + 1);
    }
}

proof fn lemma_newline_from_skip(s: Seq<char>, i: int, j: int)
    requires
        0 <= i <= j <= s.len(),
        forall|k: int| i <= k < j ==> s[k] != '\n',
    ensures
        newline_from(s, i) == newline_from(s, j),
    decreases j - i,
{
    if i < j {
        lemma_newline_from_skip(s, i + 1, j);
    }
}

/// The compact form of any error message is a single line: it holds no line feed and has at
/// most `ERROR_LINE_CAP` characters plus the three of the ellipsis.
pub proof fn lemma_compact_text_is_one_short_line(s: Seq<char>)
    ensures
        compact_text(s).len() <= ERROR_LINE_CAP + 3,
        !compact_text(s).contains('\n'),
{
    if s.len() > 0 {
        lemma_newline_from_bounds(s, 0);
    }
    let line = match first_line(s) {
        Some(l) => l,
        None => seq![
            'u', 'n', 'k', 'n', 'o', 'w', 'n', ' ', 'c', 'o', 'n', 'n', 'e', 'c', 't', 'i', 'o', 'n',
            ' ', 'e', 'r', 'r', 'o', 'r',
        ],
    };
    assert(!line.contains('\n')) by {
        if line.contains('\n') {
            let j = choose|j: int| 0 <= j < line.len() && line[j] == '\n';
            assert(line[j] == s[j]);
        }
    }
    let c = compact_text(s);
    if line.len() > ERROR_LINE_CAP {
        assert(c == line.subrange(0, ERROR_LINE_CAP as int) + seq!['.', '.', '.']);
        assert(!c.contains('\n')) by {
            if c.contains('\n') {
                let j = choose|j: int| 0 <= j < c.len() && c[j] == '\n';
                if j < ERROR_LINE_CAP {
                    assert(c[j] == line[j]);
                }
            }
        }
    }
}

/// The compact one-line form of an error message that the shell prints.
pub fn compact_err(msg: &str) -> (r: String)
    ensures
        r@ == compact_text(msg@),
{
    let n = msg.unicode_len();
    let mut k: usize = 0;
    while k < n && msg.get_char(k) != '\n'
        invariant
            n == msg@.len(),
            k <= n,
            forall|j: int| 0 <= j < k ==> msg@[j] != '\n',
        decreases n - k,
    {
        k += 1;
    }
    proof {
        lemma_newline_from_skip(msg@, 0, k as int);
        lemma_newline_from_bounds(msg@, k as int);
        reveal_strlit("unknown connection error");
        reveal_strlit("...");
    }
    let line: &str = if n == 0 {
        "unknown connection error"
    } else if k < n && k > 0 && msg.get_char(k - 1) == '\r' {
        msg.substring_char(0, k - 1)
    } else {
        msg.substring_char(0, k)
    };
    assert(line@ == (match first_line(msg@) {
        Some(l) => l,
        None => seq![
            'u', 'n', 'k', 'n', 'o', 'w', 'n', ' ', 'c', 'o', 'n', 'n', 'e', 'c', 't', 'i', 'o', 'n',
            ' ', 'e', 'r', 'r', 'o', 'r',
        ],
    }));
    let count = line.unicode_len();
    if count > ERROR_LINE_CAP {
        let mut s = line.substring_char(0, ERROR_LINE_CAP).to_owned();
        s.append("...");
        s
    } else {
        line.to_owned()
    }
}

/// The code of `c` after ASCII lower-casing: upper-case ASCII letters move to their lower-case
/// letter, every other character keeps its code.
pub open spec fn ascii_lower_code(c: char) -> u32 {
    if 'A' <= c && c <= 'Z' {
        (c as u32 + 32) as u32
    } else {
        c as u32
    }
}

/// Whether `p` occurs in the ASCII-lower-cased `s` at position `i`.
pub open spec fn folded_match_at(s: Seq<char>, p: Seq<char>, i: int) -> bool {
    &&& 0 <= i
    &&& i + p.len() <= s.len()
    &&& forall|j: int| 0 <= j < p.len() ==> ascii_lower_code(#[trigger] s[i + j]) == p[j] as u32
}

/// Whether the ASCII-lower-cased `s` contains `p`.
pub open spec fn folded_contains(s: Seq<char>, p: Seq<char>) -> bool {
    exists|i: int| folded_match_at(s, p, i)
}

fn lower_code(c: char) -> (r: u32)
    ensures
        r == ascii_lower_code(c),
{
    if 'A' <= c && c <= 'Z' {
        (c as u32) + 32
    } else {
        c as u32
    }
}

fn folded_contains_exec(s: &str, p: &str) -> (r: bool)
    ensures
        r == folded_contains(s@, p@),
{
    let n = s.unicode_len();
    let m = p.unicode_len();
    if m > n {
        assert forall|i: int| !folded_match_at(s@, p@, i) by {}
        return false;
    }
    let mut i: usize = 0;
    while i <= n - m
        invariant
            n == s@.len(),
            m == p@.len(),
            m <= n,
            i <= n - m + 1,
            forall|k: int| 0 <= k < i ==> !folded_match_at(s@, p@, k),
        decreases n - m + 1 - i,
    {
        let mut j: usize = 0;
        let mut ok = true;
        while j < m
            invariant
                n == s@.len(),
                m == p@.len(),
                i + m <= n,
                j <= m,
                ok ==> forall|t: int| 0 <= t < j ==> ascii_lower_code(#[trigger] s@[i + t]) == p@[t] as u32,
                !ok ==> !folded_match_at(s@, p@, i as int),
            decreases m - j,
        {
            let c = lower_code(s.get_char(i + j));
            let d = p.get_char(j);
            if c != (d as u32) {
                assert(ascii_lower_code(s@[i + j as int]) != p@[j as int] as u32);
                ok = false;
            }
            j += 1;
        }
        if ok {
            assert(folded_match_at(s@, p@, i as int));
            return true;
        }
        i += 1;
    }
    assert forall|k: int| !folded_match_at(s@, p@, k) by {}
    false
}

/// The lower-case words whose presence marks an error message as a lost connection.
pub open spec fn disconnect_words() -> Seq<Seq<char>> {
    seq![
        seq!['c', 'l', 'o', 's', 'e', 'd'],
        seq!['d', 'i', 's', 'c', 'o', 'n', 'n', 'e', 'c', 't', 'e', 'd'],
        seq!['b', 'r', 'o', 'k', 'e', 'n', ' ', 'p', 'i', 'p', 'e'],
        seq!['c', 'o', 'n', 'n', 'e', 'c', 't', 'i', 'o', 'n', ' ', 'r', 'e', 's', 'e', 't'],
        seq![
            'c', 'o', 'n', 'n', 'e', 'c', 't', 'i', 'o', 'n', ' ', 'a', 'b', 'o', 'r', 't', 'e', 'd',
        ],
        seq!['t', 'i', 'm', 'e', 'd', ' ', 'o', 'u', 't'],
    ]
}

/// Whether an error message reads as a lost connection: its ASCII-lower-cased text contains
/// one of `disconnect_words()`.
pub open spec fn is_disconnect_text(s: Seq<char>) -> bool {
    exists|w: int| 0 <= w < disconnect_words().len() && folded_contains(s, disconnect_words()[w])
}

/// Whether an error message tells that the connection to the board was lost.
pub fn is_disconnect_error(msg: &str) -> (r: bool)
    ensures
        r == is_disconnect_text(msg@),
{
    proof {
        reveal_strlit("closed");
        reveal_strlit("disconnected");
        reveal_strlit("broken pipe");
        reveal_strlit("connection reset");
        reveal_strlit("connection aborted");
        reveal_strlit("timed out");
    }
    let a = folded_contains_exec(msg, "closed");
    let b = folded_contains_exec(msg, "disconnected");
    let c = folded_contains_exec(msg, "broken pipe");
    let d = folded_contains_exec(msg, "connection reset");
    let e = folded_contains_exec(msg, "connection aborted");
    let f = folded_contains_exec(msg, "timed out");
    proof {
        assert("closed"@ =~= disconnect_words()[0]);
        assert("disconnected"@ =~= disconnect_words()[1]);
        assert("broken pipe"@ =~= disconnect_words()[2]);
        assert("connection reset"@ =~= disconnect_words()[3]);
        assert("connection aborted"@ =~= disconnect_words()[4]);
        assert("timed out"@ =~= disconnect_words()[5]);
        if is_disconnect_text(msg@) {
            let w = choose|w: int|
                0 <= w < disconnect_words().len() && folded_contains(msg@, disconnect_words()[w]);
            assert(0 <= w < 6);
        }
    }
    a || b || c || d || e || f
}

/// `n` blank characters.
pub open spec fn spaces(n: nat) -> Seq<char> {
    Seq::new(n, |i: int| ' ')
}

/// A listing entry padded with blanks to `cell` characters (longer entries stay as they are).
pub open spec fn padded(e: Seq<char>, cell: nat) -> Seq<char> {
    e + spaces(if cell > e.len() { (cell - e.len()) as nat } else { 0 })
}

/// The first `k` entries of `es`, each padded to `cell` characters, one after the other.
pub open spec fn padded_prefix(es: Seq<Seq<char>>, k: int, cell: nat) -> Seq<char>
    decreases k,
{
    if k <= 0 {
        Seq::empty()
    } else {
        padded_prefix(es, k - 1, cell) + padded(es[k - 1], cell)
    }
}

/// One line of a listing: every entry but the last padded to `cell`, then the last as it is.
pub open spec fn ls_row(es: Seq<Seq<char>>, cell: nat) -> Seq<char> {
    if es.len() == 0 {
        Seq::empty()
    } else {
        padded_prefix(es, es.len() - 1, cell) + es.last()
    }
}

/// The lines of a listing of `es` laid out in rows of `cols` entries.
pub open spec fn ls_rows(es: Seq<Seq<char>>, cols: nat, cell: nat) -> Seq<Seq<char>>
    decreases es.len(),
{
    if es.len() == 0 || cols == 0 {
        Seq::empty()
    } else if es.len() <= cols {
        seq![ls_row(es, cell)]
    } else {
        seq![ls_row(es.take(cols as int), cell)] + ls_rows(es.skip(cols as int), cols, cell)
    }
}

/// The length of the longest entry of `es` (0 for none).
pub open spec fn max_len(es: Seq<Seq<char>>) -> nat
    decreases es.len(),
{
    if es.len() == 0 {
        0
    } else {
        let m = max_len(es.drop_last());
        if es.last().len() > m {
            es.last().len()
        } else {
            m
        }
    }
}

/// The width a listing may use: three quarters of the terminal's width (80 columns when it is
/// not known), computed with saturating arithmetic, and never below 20.
pub open spec fn ls_table_width(width: Option<usize>) -> nat {
    let w: int = match width {
        Some(w) => w as int,
        None => 80,
    };
    let m: int = if w * 3 > usize::MAX { usize::MAX as int } else { w * 3 };
    let q: int = m / 4;
    if q < 20 {
        20
    } else {
        q as nat
    }
}

/// The width of one listing cell: the longest entry plus two blanks (saturating).
pub open spec fn ls_cell_width(es: Seq<Seq<char>>) -> nat {
    let m = max_len(es) + 2;
    if m > usize::MAX {
        usize::MAX as nat
    } else {
        m
    }
}

/// How many entries go on one line of a listing.
pub open spec fn ls_columns(es: Seq<Seq<char>>, width: Option<usize>) -> nat {
    let c = ls_table_width(width) / ls_cell_width(es);
    if c < 1 {
        1
    } else {
        c
    }
}

/// The lines that `ls` prints: one entry per line when the output is no terminal, else the
/// entries in columns that fit the terminal.
pub open spec fn ls_lines_of(es: Seq<Seq<char>>, tty: bool, width: Option<usize>) -> Seq<Seq<char>> {
    if es.len() == 0 {
        Seq::empty()
    } else if !tty {
        es
    } else {
        ls_rows(es, ls_columns(es, width), ls_cell_width(es))
    }
}

/// The characters of each string of `v`.
pub open spec fn string_views(v: Seq<String>) -> Seq<Seq<char>> {
    v.map_values(|s: String| s@)
}

fn push_spaces(out: &mut String, n: usize)
    ensures
        final(out)@ == old(out)@ + spaces(n as nat),
{
    proof {
        reveal_strlit(" ");
    }
    let mut i: usize = 0;
    while i < n
        invariant
            i <= n,
            out@ == old(out)@ + spaces(i as nat),
        decreases n - i,
    {
        proof {
            reveal_strlit(" ");
        }
        out.append(" ");
        assert(old(out)@ + spaces(i as nat) + seq![' '] =~= old(out)@ + spaces((i + 1) as nat));
        i += 1;
    }
}

fn build_row(entries: &[String], start: usize, end: usize, cell: usize) -> (r: String)
    requires
        start < end <= entries@.len(),
    ensures
        r@ == ls_row(string_views(entries@).subrange(start as int, end as int), cell as nat),
{
    let ghost es = string_views(entries@).subrange(start as int, end as int);
    let mut line = String::new();
    let mut i: usize = start;
    while i + 1 < end
        invariant
            start <= i < end <= entries@.len(),
            es == string_views(entries@).subrange(start as int, end as int),
            line@ == padded_prefix(es, i - start, cell as nat),
        decreases end - i,
    {
        let e = entries[i].as_str();
        assert(e@ == es[i - start]);
        line.append(e);
        let count = e.unicode_len();
        let pad = cell.saturating_sub(count);
        push_spaces(&mut line, pad);
        assert(line@ =~= padded_prefix(es, i + 1 - start, cell as nat));
        i += 1;
    }
    let last = entries[i].as_str();
    assert(last@ == es.last());
    line.append(last);
    line
}

proof fn lemma_max_len_bound(es: Seq<Seq<char>>, k: int)
    requires
        0 <= k <= es.len(),
    ensures
        max_len(es.take(k)) <= max_len(es),
        forall|j: int| 0 <= j < k ==> es[j].len() <= max_len(es.take(k)),
    decreases es.len() - k,
{
    if k < es.len() {
        lemma_max_len_bound(es, k + 1);
        assert(es.take(k + 1).drop_last() =~= es.take(k));
    } else {
        assert(es.take(k) =~= es);
    }
    if k > 0 {
        assert(es.take(k).drop_last() =~= es.take(k - 1));
        lemma_max_len_prefix(es, k);
    }
}

proof fn lemma_max_len_prefix(es: Seq<Seq<char>>, k: int)
    requires
        0 < k <= es.len(),
    ensures
        forall|j: int| 0 <= j < k ==> es[j].len() <= max_len(es.take(k)),
    decreases k,
{
    assert(es.take(k).drop_last() =~= es.take(k - 1));
    if k > 1 {
        lemma_max_len_prefix(es, k - 1);
    }
}

/// The lines of an `ls` listing of `entries`: one entry per line when `tty` is false,
/// else laid out in columns for a terminal of `width` columns (when known).
pub fn ls_lines(entries: &[String], tty: bool, width: Option<usize>) -> (r: Vec<String>)
    ensures
        string_views(r@) == ls_lines_of(string_views(entries@), tty, width),
{
    let ghost es = string_views(entries@);
    let n = entries.len();
    let mut out: Vec<String> = Vec::new();
    if n == 0 {
        assert(string_views(out@) =~= Seq::<Seq<char>>::empty());
        return out;
    }
    if !tty {
        let mut i: usize = 0;
        while i < n
            invariant
                i <= n == entries@.len(),
                es == string_views(entries@),
                string_views(out@) =~= es.take(i as int),
            decreases n - i,
        {
            let ghost before = out@;
            let e = entries[i].as_str().to_owned();
            assert(e@ == es[i as int]);
            out.push(e);
            assert(out@ == before.push(e));
            assert(es.len() == n);
            assert(string_views(before).len() == i);
            assert(before.len() == i);
            assert(string_views(out@).len() == i + 1);
            assert forall|k: int| 0 <= k < i + 1 implies string_views(out@)[k] == es.take(
                i + 1,
            )[k] by {
                if k < i {
                    assert(string_views(before)[k] == es.take(i as int)[k]);
                }
            }
            assert(string_views(out@) =~= es.take(i + 1));
            i += 1;
        }
        assert(es.take(n as int) =~= es);
        return out;
    }
    let w: usize = match width {
        Some(w) => w,
        None => 80,
    };
    let m: usize = match w.checked_mul(3) {
        Some(v) => v,
        None => usize::MAX,
    };
    let q = m / 4;
    let table: usize = if q < 20 {
        20
    } else {
        q
    };
    let mut longest: usize = 0;
    let mut i: usize = 0;
    while i < n
        invariant
            i <= n == entries@.len(),
            es == string_views(entries@),
            longest == max_len(es.take(i as int)),
        decreases n - i,
    {
        let c = entries[i].as_str().unicode_len();
        assert(es.take(i + 1).drop_last() =~= es.take(i as int));
        if c > longest {
            longest = c;
        }
        i += 1;
    }
    assert(es.take(n as int) =~= es);
    let cell: usize = longest.saturating_add(2);
    let c0 = table / cell;
    let cols: usize = if c0 < 1 {
        1
    } else {
        c0
    };
    assert(table == ls_table_width(width));
    assert(cell == ls_cell_width(es));
    assert(cols == ls_columns(es, width));
    let mut start: usize = 0;
    while start < n
        invariant
            start <= n == entries@.len(),
            n > 0,
            cols >= 1,
            es == string_views(entries@),
            string_views(out@) + ls_rows(es.skip(start as int), cols as nat, cell as nat)
                == ls_rows(es, cols as nat, cell as nat),
        decreases n - start,
    {
        let ghost rest = es.skip(start as int);
        let end: usize = if n - start <= cols {
            n
        } else {
            start + cols
        };
        let row = build_row(entries, start, end, cell);
        proof {
            if n - start <= cols {
                assert(es.subrange(start as int, end as int) =~= rest);
                assert(es.skip(end as int) =~= Seq::<Seq<char>>::empty());
                assert(ls_rows(es.skip(end as int), cols as nat, cell as nat) =~= Seq::<
                    Seq<char>,
                >::empty());
            } else {
                assert(es.subrange(start as int, end as int) =~= rest.take(cols as int));
                assert(rest.skip(cols as int) =~= es.skip(end as int));
            }
        }
        let ghost before = string_views(out@);
        out.push(row);
        assert(string_views(out@) =~= before.push(row@));
        assert(string_views(out@) + ls_rows(es.skip(end as int), cols as nat, cell as nat)
            =~= before + ls_rows(rest, cols as nat, cell as nat));
        start = end;
    }
    assert(es.skip(n as int) =~= Seq::<Seq<char>>::empty());
    assert(string_views(out@) + Seq::<Seq<char>>::empty() =~= string_views(out@));
    out
}

/// What ended one attempt to run a shell command.
#[derive(Debug, Clone, Copy, PartialEq, Eq, Structural)]
pub enum ShellEvent {
    /// The command finished; `false` asks the shell to exit.
    Completed(bool),
    /// The command failed; `disconnected` tells whether the error reads as a lost link.
    Failed { disconnected: bool },
    /// The user pressed Ctrl-C while the command ran.
    Interrupted,
}

/// The status line the shell prints after an attempt.
#[derive(Debug, Clone, Copy, PartialEq, Eq, Structural)]
pub enum ShellNotice {
    /// Nothing to say.
    Silent,
    /// "interrupted"
    Interrupted,
    /// "waiting for board reboot..." (and "reconnected" once it is back)
    WaitingForReboot,
    /// "link lost, reconnecting..." (and "reconnected" once it is back)
    LinkLost,
    /// The command's error message.
    Error,
}

/// What the shell does after one attempt to run a command.
#[derive(Debug, Clone, Copy, PartialEq, Eq, Structural)]
pub struct ShellStep {
    /// The status line to print first.
    pub notice: ShellNotice,
    /// Drop the connection and connect again.
    pub reconnect: bool,
    /// Run the same command again.
    pub retry: bool,
    /// Save the history and leave the shell.
    pub exit: bool,
    /// Print how long the command took (when statistics are on).
    pub print_stats: bool,
}

/// The shell's reaction to an attempt's outcome. `reboots` tells whether the command reboots
/// the board; `stats` whether timing statistics are on.
pub fn shell_step(event: ShellEvent, reboots: bool, stats: bool) -> (r: ShellStep)
    ensures
        r == (match event {
            ShellEvent::Interrupted => ShellStep {
                notice: ShellNotice::Interrupted,
                reconnect: true,
                retry: false,
                exit: false,
                print_stats: false,
            },
            ShellEvent::Completed(keep) => ShellStep {
                notice: if keep && reboots {
                    ShellNotice::WaitingForReboot
                } else {
                    ShellNotice::Silent
                },
                reconnect: keep && reboots,
                retry: false,
                exit: !keep,
                print_stats: keep && stats,
            },
            ShellEvent::Failed { disconnected } => ShellStep {
                notice: if disconnected {
                    ShellNotice::LinkLost
                } else {
                    ShellNotice::Error
                },
                reconnect: disconnected,
                retry: disconnected,
                exit: false,
                print_stats: !disconnected && stats,
            },
        }),
{
    match event {
        ShellEvent::Interrupted => ShellStep {
            notice: ShellNotice::Interrupted,
            reconnect: true,
            retry: false,
            exit: false,
            print_stats: false,
        },
        ShellEvent::Completed(keep) => {
            let reboot = keep && reboots;
            ShellStep {
                notice: if reboot {
                    ShellNotice::WaitingForReboot
                } else {
                    ShellNotice::Silent
                },
                reconnect: reboot,
                retry: false,
                exit: !keep,
                print_stats: keep && stats,
            }
        },
        ShellEvent::Failed { disconnected } => ShellStep {
            notice: if disconnected {
                ShellNotice::LinkLost
            } else {
                ShellNotice::Error
            },
            reconnect: disconnected,
            retry: disconnected,
            exit: false,
            print_stats: !disconnected && stats,
        },
    }
}

/// What to tell the user while waiting for the board to come back.
#[derive(Debug, Clone, Copy, PartialEq, Eq, Structural)]
pub enum ReconnectNotice {
    /// Say nothing this time.
    Silent,
    /// "waiting for board..." with the error of the first failed attempt.
    Waiting,
    /// "still waiting for board..."
    StillWaiting,
}

/// The notice after failed connection attempt number `attempts` (counting from 1): the first
/// failure is reported with its error, then every tenth one.
pub fn reconnect_notice(attempts: u32) -> (r: ReconnectNotice)
    ensures
        r == (if attempts == 1 {
            ReconnectNotice::Waiting
        } else if attempts % 10 == 0 {
            ReconnectNotice::StillWaiting
        } else {
            ReconnectNotice::Silent
        }),
{
    if attempts == 1 {
        ReconnectNotice::Waiting
    } else if attempts % 10 == 0 {
        ReconnectNotice::StillWaiting
    } else {
        ReconnectNotice::Silent
    }
}

} // verus!
