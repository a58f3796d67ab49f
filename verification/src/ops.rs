//! File-system operations of the host tool: natural ordering of directory
//! entries, the checks applied to each RPC response, and report texts.
//!
//! The RPC round trips themselves are made by the tool; every decision on
//! what a response means is taken here.
use vstd::prelude::*;
use core::cmp::Ordering;
use crate::text::{decimal, push_decimal};
use crate::wire_types::{FsDirEntry, FsError, FsNodeKind, FsReadFileResp, FsListDirResp};

verus! {

/// An entry of a remote directory.
#[derive(Debug)]
pub struct DirEntry {
    pub kind: FsNodeKind,
    pub name: String,
}

/// Metadata of a remote node.
#[derive(Debug, Clone, Copy)]
pub struct FsNodeMeta {
    pub kind: FsNodeKind,
    pub size_bytes: u32,
    pub epoch: u32,
}

/// Limits of the remote file system.
#[derive(Debug, Clone, Copy)]
pub struct StorageReport {
    pub epoch: u32,
    pub max_chunk: u16,
    pub max_dir_entries: u16,
}

// ---------------------------------------------------------------------------
// Natural ordering of names
// ---------------------------------------------------------------------------

/// An ASCII decimal digit.
pub open spec fn is_digit(b: u8) -> bool {
    48 <= b <= 57
}

/// ASCII lower-casing of one byte.
pub open spec fn ascii_lower(b: u8) -> u8 {
    if 65 <= b <= 90 {
        (b + 32) as u8
    } else {
        b
    }
}

/// -1, 0 or 1 as `x` is less than, equal to or greater than `y`.
pub open spec fn compare_int(x: int, y: int) -> int {
    if x < y {
        -1
    } else if x > y {
        1
    } else {
        0
    }
}

/// End of the run of digits of `s` that starts at `i`.
pub open spec fn digit_run_end(s: Seq<u8>, i: int) -> int
    decreases s.len() - i,
{
    if 0 <= i < s.len() && is_digit(s[i]) {
        digit_run_end(s, i + 1)
    } else {
        i
    }
}

/// End of the run of `0` digits of `s` from `i`, stopping at `e`.
pub open spec fn zero_run_end(s: Seq<u8>, i: int, e: int) -> int
    decreases e - i,
{
    if 0 <= i < e && i < s.len() && s[i] == 48 {
        zero_run_end(s, i + 1, e)
    } else {
        i
    }
}

/// Lexicographic comparison of byte strings (-1, 0, 1).
pub open spec fn lex_order(x: Seq<u8>, y: Seq<u8>) -> int
    decreases x.len(),
{
    if x.len() == 0 && y.len() == 0 {
        0
    } else if x.len() == 0 {
        -1
    } else if y.len() == 0 {
        1
    } else if x[0] < y[0] {
        -1
    } else if x[0] > y[0] {
        1
    } else {
        lex_order(x.drop_first(), y.drop_first())
    }
}

/// Natural comparison of `a` from `ia` with `b` from `ib` (-1, 0, 1).
///
/// Where both continue with a digit, the two runs of digits are compared as
/// numbers: the one with more significant digits (leading zeros aside) is
/// greater, equal lengths compare digit by digit, and equal values compare
/// by the length of the run (more leading zeros is greater). Other bytes
/// compare ASCII case-insensitively. When one side runs out, the shorter
/// string is less.
pub open spec fn natural_order_from(a: Seq<u8>, b: Seq<u8>, ia: int, ib: int) -> int
    decreases a.len() - ia + b.len() - ib,
{
    if 0 <= ia < a.len() && 0 <= ib < b.len() {
        if is_digit(a[ia]) && is_digit(b[ib]) {
            let ea = digit_run_end(a, ia);
            let eb = digit_run_end(b, ib);
            let na = zero_run_end(a, ia, ea);
            let nb = zero_run_end(b, ib, eb);
            if ea - na != eb - nb {
                compare_int(ea - na, eb - nb)
            } else if na < ea && nb < eb && lex_order(a.subrange(na, ea), b.subrange(nb, eb)) != 0 {
                lex_order(a.subrange(na, ea), b.subrange(nb, eb))
            } else if ea - ia != eb - ib {
                compare_int(ea - ia, eb - ib)
            } else if ea > ia && eb > ib {
                proof {
                    lemma_digit_run_end(a, ia);
                    lemma_digit_run_end(b, ib);
                }
                natural_order_from(a, b, ea, eb)
            } else {
                0
            }
        } else if ascii_lower(a[ia]) != ascii_lower(b[ib]) {
            compare_int(ascii_lower(a[ia]) as int, ascii_lower(b[ib]) as int)
        } else {
            natural_order_from(a, b, ia + 1, ib + 1)
        }
    } else {
        compare_int(a.len() as int, b.len() as int)
    }
}

/// Natural comparison of two byte strings (-1, 0, 1).
pub open spec fn natural_order(a: Seq<u8>, b: Seq<u8>) -> int {
    natural_order_from(a, b, 0, 0)
}

/// The ordering that -1, 0 or 1 stands for.
pub open spec fn ordering_of(c: int) -> Ordering {
    if c < 0 {
        Ordering::Less
    } else if c > 0 {
        Ordering::Greater
    } else {
        Ordering::Equal
    }
}

/// A digit run starting at `i` ends within `s`, covers only digits, and stops at a non-digit
/// or at the end.
pub proof fn lemma_digit_run_end(s: Seq<u8>, i: int)
    requires
        0 <= i <= s.len(),
    ensures
        i <= digit_run_end(s, i) <= s.len(),
        forall|k: int| i <= k < digit_run_end(s, i) ==> is_digit(#[trigger] s[k]),
        digit_run_end(s, i) < s.len() ==> !is_digit(s[digit_run_end(s, i)]),
    decreases s.len() - i,
{
    if i < s.len() && is_digit(s[i]) {
        lemma_digit_run_end(s, i + 1);
    }
}

proof fn lemma_zero_run_end(s: Seq<u8>, i: int, e: int)
    requires
        0 <= i <= e <= s.len(),
    ensures
        i <= zero_run_end(s, i, e) <= e,
        zero_run_end(s, i, e) < e ==> s[zero_run_end(s, i, e)] != 48,
    decreases e - i,
{
    if i < e && s[i] == 48 {
        lemma_zero_run_end(s, i + 1, e);
    }
}

fn is_ascii_digit(b: u8) -> (r: bool)
    ensures
        r == is_digit(b),
{
    48 <= b && b <= 57
}

fn to_ascii_lower(b: u8) -> (r: u8)
    ensures
        r == ascii_lower(b),
{
    if 65 <= b && b <= 90 {
        b + 32
    } else {
        b
    }
}

fn digit_end(s: &[u8], i: usize) -> (r: usize)
    requires
        i <= s@.len(),
    ensures
        r == digit_run_end(s@, i as int),
{
    let mut j = i;
    while j < s.len() && is_ascii_digit(s[j])
        invariant
            i <= j <= s@.len(),
            digit_run_end(s@, i as int) == digit_run_end(s@, j as int),
        decreases s@.len() - j,
    {
        j += 1;
    }
    j
}

fn zero_end(s: &[u8], i: usize, e: usize) -> (r: usize)
    requires
        i <= e <= s@.len(),
    ensures
        r == zero_run_end(s@, i as int, e as int),
{
    let mut j = i;
    while j < e && s[j] == 48
        invariant
            i <= j <= e,
            e <= s@.len(),
            zero_run_end(s@, i as int, e as int) == zero_run_end(s@, j as int, e as int),
        decreases e - j,
    {
        j += 1;
    }
    j
}

fn lex_order_ranges(a: &[u8], na: usize, ea: usize, b: &[u8], nb: usize, eb: usize) -> (r: i8)
    requires
        na <= ea <= a@.len(),
        nb <= eb <= b@.len(),
    ensures
        r as int == lex_order(a@.subrange(na as int, ea as int), b@.subrange(nb as int, eb as int)),
{
    let mut i = na;
    let mut j = nb;
    while i < ea && j < eb
        invariant
            na <= i <= ea <= a@.len(),
            nb <= j <= eb <= b@.len(),
            i - na == j - nb,
            lex_order(a@.subrange(na as int, ea as int), b@.subrange(nb as int, eb as int))
                == lex_order(a@.subrange(i as int, ea as int), b@.subrange(j as int, eb as int)),
        decreases ea - i,
    {
        proof {
            let x = a@.subrange(i as int, ea as int);
            let y = b@.subrange(j as int, eb as int);
            assert(x.drop_first() =~= a@.subrange(i + 1, ea as int));
            assert(y.drop_first() =~= b@.subrange(j + 1, eb as int));
        }
        if a[i] < b[j] {
            return -1;
        }
        if a[i] > b[j] {
            return 1;
        }
        i += 1;
        j += 1;
    }
    if i == ea && j == eb {
        0
    } else if i == ea {
        -1
    } else {
        1
    }
}

/// Natural comparison of two byte strings (-1, 0, 1).
pub fn natural_order_bytes(ab: &[u8], bb: &[u8]) -> (r: i8)
    ensures
        r as int == natural_order(ab@, bb@),
{
    let mut ia: usize = 0;
    let mut ib: usize = 0;
    while ia < ab.len() && ib < bb.len()
        invariant
            ia <= ab@.len(),
            ib <= bb@.len(),
            natural_order(ab@, bb@) == natural_order_from(ab@, bb@, ia as int, ib as int),
        decreases ab@.len() - ia + bb@.len() - ib,
    {
        let ca = ab[ia];
        let cb = bb[ib];
        if is_ascii_digit(ca) && is_ascii_digit(cb) {
            let sa = ia;
            let sb = ib;
            let ea = digit_end(ab, ia);
            let eb = digit_end(bb, ib);
            proof {
                lemma_digit_run_end(ab@, sa as int);
                lemma_digit_run_end(bb@, sb as int);
                assert(is_digit(ab@[sa as int]));
                assert(digit_run_end(ab@, sa as int) == digit_run_end(ab@, sa + 1));
                assert(digit_run_end(bb@, sb as int) == digit_run_end(bb@, sb + 1));
                lemma_digit_run_end(ab@, sa + 1);
                lemma_digit_run_end(bb@, sb + 1);
            }
            let na = zero_end(ab, sa, ea);
            let nb = zero_end(bb, sb, eb);
            proof {
                lemma_zero_run_end(ab@, sa as int, ea as int);
                lemma_zero_run_end(bb@, sb as int, eb as int);
            }
            let la = ea - na;
            let lb = eb - nb;
            if la != lb {
                return if la < lb {
                    -1
                } else {
                    1
                };
            }
            if na < ea && nb < eb {
                let ord = lex_order_ranges(ab, na, ea, bb, nb, eb);
                if ord != 0 {
                    return ord;
                }
            }
            let ra = ea - sa;
            let rb = eb - sb;
            if ra != rb {
                return if ra < rb {
                    -1
                } else {
                    1
                };
            }
            ia = ea;
            ib = eb;
        } else {
            let oa = to_ascii_lower(ca);
            let ob = to_ascii_lower(cb);
            if oa != ob {
                return if oa < ob {
                    -1
                } else {
                    1
                };
            }
            ia += 1;
            ib += 1;
        }
    }
    if ab.len() < bb.len() {
        -1
    } else if ab.len() > bb.len() {
        1
    } else {
        0
    }
}

/// Natural, ASCII case-insensitive ordering of two names: runs of digits
/// compare as numbers.
pub fn natural_cmp_ascii(a: &str, b: &str) -> (r: Ordering)
    ensures
        r == ordering_of(natural_order(utf8_bytes(a@), utf8_bytes(b@))),
{
    let c = natural_order_bytes(a.as_bytes(), b.as_bytes());
    if c < 0 {
        Ordering::Less
    } else if c > 0 {
        Ordering::Greater
    } else {
        Ordering::Equal
    }
}

proof fn lemma_lex_order_antisymmetric(x: Seq<u8>, y: Seq<u8>)
    ensures
        lex_order(x, y) == -lex_order(y, x),
    decreases x.len(),
{
    if x.len() > 0 && y.len() > 0 && x[0] == y[0] {
        lemma_lex_order_antisymmetric(x.drop_first(), y.drop_first());
    }
}

proof fn lemma_natural_order_from_antisymmetric(a: Seq<u8>, b: Seq<u8>, ia: int, ib: int)
    ensures
        natural_order_from(a, b, ia, ib) == -natural_order_from(b, a, ib, ia),
    decreases a.len() - ia + b.len() - ib,
{
    if 0 <= ia < a.len() && 0 <= ib < b.len() {
        if is_digit(a[ia]) && is_digit(b[ib]) {
            let ea = digit_run_end(a, ia);
            let eb = digit_run_end(b, ib);
            let na = zero_run_end(a, ia, ea);
            let nb = zero_run_end(b, ib, eb);
            lemma_lex_order_antisymmetric(a.subrange(na, ea), b.subrange(nb, eb));
            if ea > ia && eb > ib {
                lemma_digit_run_end(a, ia);
                lemma_digit_run_end(b, ib);
                lemma_natural_order_from_antisymmetric(a, b, ea, eb);
            }
        } else if ascii_lower(a[ia]) == ascii_lower(b[ib]) {
            lemma_natural_order_from_antisymmetric(a, b, ia + 1, ib + 1);
        }
    }
}

/// Swapping the arguments of the natural comparison reverses its result.
pub proof fn lemma_natural_order_antisymmetric(a: Seq<u8>, b: Seq<u8>)
    ensures
        natural_order(a, b) == -natural_order(b, a),
{
    lemma_natural_order_from_antisymmetric(a, b, 0, 0);
}

proof fn lemma_natural_order_from_reflexive(a: Seq<u8>, i: int)
    requires
        0 <= i <= a.len(),
    ensures
        natural_order_from(a, a, i, i) == 0,
    decreases a.len() - i,
{
    if i < a.len() {
        if is_digit(a[i]) {
            let e = digit_run_end(a, i);
            lemma_digit_run_end(a, i);
            assert(digit_run_end(a, i) == digit_run_end(a, i + 1));
            lemma_digit_run_end(a, i + 1);
            let n = zero_run_end(a, i, e);
            lemma_lex_order_antisymmetric(a.subrange(n, e), a.subrange(n, e));
            lemma_natural_order_from_reflexive(a, e);
        } else {
            lemma_natural_order_from_reflexive(a, i + 1);
        }
    }
}

/// Every name compares equal to itself.
pub proof fn lemma_natural_order_reflexive(a: Seq<u8>)
    ensures
        natural_order(a, a) == 0,
{
    lemma_natural_order_from_reflexive(a, 0);
}

/// Whether two byte strings are equal up to ASCII case (as `eq_ignore_ascii_case`): the same
/// length, and the same byte at each position once ASCII letters are lower-cased.
pub open spec fn equal_ignoring_ascii_case(a: Seq<u8>, b: Seq<u8>) -> bool {
    a.len() == b.len() && forall|k: int| 0 <= k < a.len() ==> ascii_lower(#[trigger] a[k])
        == ascii_lower(b[k])
}

proof fn lemma_zero_run_zeros(s: Seq<u8>, i: int, e: int)
    requires
        0 <= i <= e <= s.len(),
    ensures
        forall|k: int| i <= k < zero_run_end(s, i, e) ==> #[trigger] s[k] == 48,
    decreases e - i,
{
    if i < e && s[i] == 48 {
        lemma_zero_run_zeros(s, i + 1, e);
    }
}

proof fn lemma_zero_runs_agree(a: Seq<u8>, b: Seq<u8>, i: int, e: int)
    requires
        0 <= i <= e <= a.len(),
        e <= b.len(),
        forall|k: int| i <= k < e ==> #[trigger] a[k] == b[k],
    ensures
        zero_run_end(a, i, e) == zero_run_end(b, i, e),
    decreases e - i,
{
    if i < e && a[i] == 48 {
        lemma_zero_runs_agree(a, b, i + 1, e);
    }
}

proof fn lemma_digit_runs_agree(a: Seq<u8>, b: Seq<u8>, i: int)
    requires
        0 <= i <= a.len(),
        a.len() == b.len(),
        forall|k: int| i <= k < a.len() ==> ascii_lower(#[trigger] a[k]) == ascii_lower(b[k]),
    ensures
        digit_run_end(a, i) == digit_run_end(b, i),
        forall|k: int| i <= k < digit_run_end(a, i) ==> #[trigger] a[k] == b[k],
    decreases a.len() - i,
{
    if i < a.len() {
        lemma_lower_keeps_digits(a[i]);
        lemma_lower_keeps_digits(b[i]);
        assert(ascii_lower(a[i]) == ascii_lower(b[i]));
        if is_digit(a[i]) {
            lemma_digit_runs_agree(a, b, i + 1);
            lemma_digit_run_end(a, i + 1);
        }
    }
}

proof fn lemma_natural_equal_from(a: Seq<u8>, b: Seq<u8>, i: int)
    requires
        0 <= i <= a.len(),
        i <= b.len(),
    ensures
        (natural_order_from(a, b, i, i) == 0) <==> (a.len() == b.len() && forall|k: int|
            i <= k < a.len() ==> ascii_lower(#[trigger] a[k]) == ascii_lower(b[k])),
    decreases a.len() - i,
{
    if i < a.len() && i < b.len() {
        lemma_lower_keeps_digits(a[i]);
        lemma_lower_keeps_digits(b[i]);
        if is_digit(a[i]) && is_digit(b[i]) {
            let ea = digit_run_end(a, i);
            let eb = digit_run_end(b, i);
            lemma_digit_run_end(a, i);
            lemma_digit_run_end(b, i);
            let na = zero_run_end(a, i, ea);
            let nb = zero_run_end(b, i, eb);
            lemma_zero_run_end(a, i, ea);
            lemma_zero_run_end(b, i, eb);
            lemma_zero_run_zeros(a, i, ea);
            lemma_zero_run_zeros(b, i, eb);
            lemma_lex_order_zero(a.subrange(na, ea), b.subrange(nb, eb));
            if ea == eb {
                lemma_natural_equal_from(a, b, ea);
            }
            if a.len() == b.len() && forall|k: int|
                i <= k < a.len() ==> ascii_lower(#[trigger] a[k]) == ascii_lower(b[k]) {
                lemma_digit_runs_agree(a, b, i);
                lemma_zero_runs_agree(a, b, i, ea);
                assert(a.subrange(na, ea) =~= b.subrange(nb, eb));
                assert(natural_order_from(a, b, i, i) == natural_order_from(a, b, ea, eb));
            }
            if natural_order_from(a, b, i, i) == 0 {
                assert(ea == eb && na == nb);
                assert forall|k: int| i <= k < ea implies #[trigger] a[k] == b[k] by {
                    if k >= na {
                        assert(a.subrange(na, ea)[k - na] == a[k]);
                        assert(b.subrange(nb, eb)[k - na] == b[k]);
                    }
                }
                assert forall|k: int| i <= k < a.len() implies ascii_lower(#[trigger] a[k])
                    == ascii_lower(b[k]) by {
                    if k < ea {
                        assert(a[k] == b[k]);
                    }
                }
            }
        } else {
            lemma_natural_equal_from(a, b, i + 1);
        }
    }
}

/// Two names compare equal in the natural order exactly when they are equal up to ASCII case.
pub proof fn lemma_natural_order_equal_iff_same_ignoring_case(a: Seq<u8>, b: Seq<u8>)
    ensures
        (natural_order(a, b) == 0) <==> equal_ignoring_ascii_case(a, b),
{
    lemma_natural_equal_from(a, b, 0);
}

proof fn lemma_lex_order_transitive(x: Seq<u8>, y: Seq<u8>, z: Seq<u8>)
    requires
        lex_order(x, y) <= 0,
        lex_order(y, z) <= 0,
    ensures
        lex_order(x, z) <= 0,
    decreases x.len(),
{
    if x.len() > 0 && y.len() > 0 && z.len() > 0 && x[0] == y[0] && y[0] == z[0] {
        lemma_lex_order_transitive(x.drop_first(), y.drop_first(), z.drop_first());
    }
}

proof fn lemma_lex_order_zero(x: Seq<u8>, y: Seq<u8>)
    ensures
        (lex_order(x, y) == 0) <==> (x == y),
    decreases x.len(),
{
    if x.len() > 0 && y.len() > 0 && x[0] == y[0] {
        lemma_lex_order_zero(x.drop_first(), y.drop_first());
        if x.drop_first() == y.drop_first() {
            assert(x =~= seq![x[0]] + x.drop_first());
            assert(y =~= seq![y[0]] + y.drop_first());
        }
        if x == y {
            assert(x.drop_first() == y.drop_first());
        }
    } else if x.len() == 0 && y.len() == 0 {
        assert(x =~= y);
    } else if x.len() > 0 && y.len() > 0 {
        if x == y {
            assert(x[0] == y[0]);
        }
    }
}

proof fn lemma_lower_keeps_digits(b: u8)
    ensures
        is_digit(ascii_lower(b)) <==> is_digit(b),
        is_digit(b) ==> ascii_lower(b) == b,
{
}

/// The three keys by which two runs of digits starting at `i` compare: the number of
/// significant digits, the significant digits, and the length of the run.
pub open spec fn digit_key_order(x: Seq<u8>, y: Seq<u8>, i: int) -> int {
    let ex = digit_run_end(x, i);
    let ey = digit_run_end(y, i);
    let nx = zero_run_end(x, i, ex);
    let ny = zero_run_end(y, i, ey);
    if ex - nx != ey - ny {
        compare_int(ex - nx, ey - ny)
    } else if nx < ex && ny < ey && lex_order(x.subrange(nx, ex), y.subrange(ny, ey)) != 0 {
        lex_order(x.subrange(nx, ex), y.subrange(ny, ey))
    } else if ex - i != ey - i {
        compare_int(ex - i, ey - i)
    } else {
        0
    }
}

proof fn lemma_digit_keys_transitive(a: Seq<u8>, b: Seq<u8>, c: Seq<u8>, i: int)
    requires
        0 <= i,
        i < a.len() && i < b.len() && i < c.len(),
        is_digit(a[i]) && is_digit(b[i]) && is_digit(c[i]),
        digit_key_order(a, b, i) <= 0,
        digit_key_order(b, c, i) <= 0,
    ensures
        digit_key_order(a, c, i) <= 0,
        digit_key_order(a, c, i) == 0 ==> digit_key_order(a, b, i) == 0 && digit_key_order(b, c, i)
            == 0,
{
    let ea = digit_run_end(a, i);
    let eb = digit_run_end(b, i);
    let ec = digit_run_end(c, i);
    lemma_digit_run_end(a, i);
    lemma_digit_run_end(b, i);
    lemma_digit_run_end(c, i);
    lemma_zero_run_end(a, i, ea);
    lemma_zero_run_end(b, i, eb);
    lemma_zero_run_end(c, i, ec);
    let na = zero_run_end(a, i, ea);
    let nb = zero_run_end(b, i, eb);
    let nc = zero_run_end(c, i, ec);
    let da = a.subrange(na, ea);
    let db = b.subrange(nb, eb);
    let dc = c.subrange(nc, ec);
    if ea - na == eb - nb && eb - nb == ec - nc && na < ea {
        lemma_lex_order_transitive(da, db, dc);
        lemma_lex_order_zero(da, dc);
        lemma_lex_order_zero(da, db);
        lemma_lex_order_zero(db, dc);
        lemma_lex_order_antisymmetric(da, db);
    }
}

proof fn lemma_natural_order_transitive_at(a: Seq<u8>, b: Seq<u8>, c: Seq<u8>, i: int)
    requires
        0 <= i <= a.len(),
        i <= b.len(),
        i <= c.len(),
        natural_order_from(a, b, i, i) <= 0,
        natural_order_from(b, c, i, i) <= 0,
    ensures
        natural_order_from(a, c, i, i) <= 0,
    decreases a.len() - i,
{
    if i < a.len() && i < b.len() && i < c.len() {
        let ra = ascii_lower(a[i]);
        let rb = ascii_lower(b[i]);
        let rc = ascii_lower(c[i]);
        lemma_lower_keeps_digits(a[i]);
        lemma_lower_keeps_digits(b[i]);
        lemma_lower_keeps_digits(c[i]);
        let da = is_digit(a[i]);
        let db = is_digit(b[i]);
        let dc = is_digit(c[i]);
        if da && db && dc {
            lemma_digit_keys_transitive(a, b, c, i);
            let ea = digit_run_end(a, i);
            let eb = digit_run_end(b, i);
            let ec = digit_run_end(c, i);
            lemma_digit_run_end(a, i);
            lemma_digit_run_end(b, i);
            lemma_digit_run_end(c, i);
            assert(digit_run_end(a, i) == digit_run_end(a, i + 1));
            assert(digit_run_end(b, i) == digit_run_end(b, i + 1));
            assert(digit_run_end(c, i) == digit_run_end(c, i + 1));
            lemma_digit_run_end(a, i + 1);
            lemma_digit_run_end(b, i + 1);
            lemma_digit_run_end(c, i + 1);
            if digit_key_order(a, c, i) == 0 {
                assert(ea == eb && eb == ec);
                lemma_natural_order_transitive_at(a, b, c, ea);
            }
        } else if !da && !db && !dc {
            if ra == rb && rb == rc {
                lemma_natural_order_transitive_at(a, b, c, i + 1);
            }
        }
    }
}

/// The natural comparison is transitive: with `a` not after `b` and `b` not after `c`, `a` is
/// not after `c`. With reflexivity and antisymmetry it is a total preorder.
pub proof fn lemma_natural_order_transitive(a: Seq<u8>, b: Seq<u8>, c: Seq<u8>)
    requires
        natural_order(a, b) <= 0,
        natural_order(b, c) <= 0,
    ensures
        natural_order(a, c) <= 0,
{
    lemma_natural_order_transitive_at(a, b, c, 0);
}

/// The number that a run of ASCII decimal digits writes.
pub open spec fn digits_value(d: Seq<u8>) -> nat
    decreases d.len(),
{
    if d.len() == 0 {
        0
    } else {
        digits_value(d.drop_last()) * 10 + (d.last() - 48) as nat
    }
}

/// Every byte is an ASCII decimal digit.
pub open spec fn all_digits(d: Seq<u8>) -> bool {
    forall|k: int| 0 <= k < d.len() ==> is_digit(#[trigger] d[k])
}

proof fn lemma_lex_order_push(x: Seq<u8>, y: Seq<u8>, a: u8, b: u8)
    requires
        x.len() == y.len(),
    ensures
        lex_order(x.push(a), y.push(b)) == (if lex_order(x, y) != 0 {
            lex_order(x, y)
        } else {
            compare_int(a as int, b as int)
        }),
    decreases x.len(),
{
    let xa = x.push(a);
    let yb = y.push(b);
    if x.len() == 0 {
        assert(xa.drop_first() =~= Seq::<u8>::empty());
        assert(yb.drop_first() =~= Seq::<u8>::empty());
        assert(lex_order(Seq::<u8>::empty(), Seq::<u8>::empty()) == 0);
        assert(lex_order(x, y) == 0);
        assert(xa[0] == a && yb[0] == b);
    } else {
        assert(xa[0] == x[0] && yb[0] == y[0]);
        if x[0] == y[0] {
            assert(xa.drop_first() =~= x.drop_first().push(a));
            assert(yb.drop_first() =~= y.drop_first().push(b));
            lemma_lex_order_push(x.drop_first(), y.drop_first(), a, b);
        }
    }
}

proof fn lemma_lex_order_is_numeric(x: Seq<u8>, y: Seq<u8>)
    requires
        x.len() == y.len(),
        all_digits(x),
        all_digits(y),
    ensures
        lex_order(x, y) == compare_int(digits_value(x) as int, digits_value(y) as int),
    decreases x.len(),
{
    if x.len() > 0 {
        let x0 = x.drop_last();
        let y0 = y.drop_last();
        assert(all_digits(x0)) by {
            assert forall|k: int| 0 <= k < x0.len() implies is_digit(#[trigger] x0[k]) by {
                assert(x0[k] == x[k]);
            }
        }
        assert(all_digits(y0)) by {
            assert forall|k: int| 0 <= k < y0.len() implies is_digit(#[trigger] y0[k]) by {
                assert(y0[k] == y[k]);
            }
        }
        lemma_lex_order_is_numeric(x0, y0);
        assert(x0.push(x.last()) =~= x);
        assert(y0.push(y.last()) =~= y);
        lemma_lex_order_push(x0, y0, x.last(), y.last());
        assert(is_digit(x[x.len() - 1]) && is_digit(y[y.len() - 1]));
    } else {
        assert(x =~= y);
    }
}

proof fn lemma_digit_run_in_common_prefix(a: Seq<u8>, b: Seq<u8>, i: int, m: int)
    requires
        0 <= i < m <= a.len(),
        m <= b.len(),
        forall|k: int| 0 <= k < m ==> #[trigger] a[k] == b[k],
        !is_digit(a[m - 1]),
    ensures
        digit_run_end(a, i) == digit_run_end(b, i),
        digit_run_end(a, i) < m,
    decreases m - i,
{
    if is_digit(a[i]) {
        lemma_digit_run_in_common_prefix(a, b, i + 1, m);
    }
}

proof fn lemma_digit_run_of_block(a: Seq<u8>, i: int, e: int)
    requires
        0 <= i <= e <= a.len(),
        forall|k: int| i <= k < e ==> is_digit(#[trigger] a[k]),
        e == a.len() || !is_digit(a[e]),
    ensures
        digit_run_end(a, i) == e,
    decreases e - i,
{
    if i < e {
        lemma_digit_run_of_block(a, i + 1, e);
    }
}

proof fn lemma_natural_common_prefix(a: Seq<u8>, b: Seq<u8>, i: int, m: int)
    requires
        0 <= i <= m <= a.len(),
        m <= b.len(),
        forall|k: int| 0 <= k < m ==> #[trigger] a[k] == b[k],
        m == 0 || !is_digit(a[m - 1]),
    ensures
        natural_order_from(a, b, i, i) == natural_order_from(a, b, m, m),
    decreases m - i,
{
    if i < m {
        assert(a[i] == b[i]);
        if is_digit(a[i]) {
            lemma_digit_run_in_common_prefix(a, b, i, m);
            let e = digit_run_end(a, i);
            lemma_digit_run_end(a, i);
            lemma_zero_run_end(a, i, e);
            lemma_zero_runs_agree(a, b, i, e);
            let n = zero_run_end(a, i, e);
            assert(a.subrange(n, e) =~= b.subrange(n, e));
            lemma_lex_order_zero(a.subrange(n, e), b.subrange(n, e));
            lemma_natural_common_prefix(a, b, e, m);
        } else {
            lemma_natural_common_prefix(a, b, i + 1, m);
        }
    }
}

/// Numbers in names compare by value: two names that are the same but for one run of digits,
/// where both runs have the same length and no leading zero, are in the order of the numbers
/// that the runs write (`file12` before `file13`, `log_9` after `log_1`), and equal exactly
/// when the numbers are. The run is the whole run of digits: `p` ends and `s` starts with no
/// digit.
pub proof fn lemma_natural_order_numeric_runs(p: Seq<u8>, d1: Seq<u8>, d2: Seq<u8>, s: Seq<u8>)
    requires
        d1.len() == d2.len(),
        d1.len() > 0,
        all_digits(d1),
        all_digits(d2),
        d1[0] != 48,
        d2[0] != 48,
        p.len() == 0 || !is_digit(p.last()),
        s.len() == 0 || !is_digit(s[0]),
    ensures
        natural_order(p + d1 + s, p + d2 + s) == compare_int(
            digits_value(d1) as int,
            digits_value(d2) as int,
        ),
{
    let a = p + d1 + s;
    let b = p + d2 + s;
    let m = p.len() as int;
    let n = d1.len() as int;
    assert forall|k: int| 0 <= k < m implies #[trigger] a[k] == b[k] by {
        assert(a[k] == p[k] && b[k] == p[k]);
    }
    if m > 0 {
        assert(a[m - 1] == p.last());
    }
    lemma_natural_common_prefix(a, b, 0, m);
    assert forall|k: int| m <= k < m + n implies is_digit(#[trigger] a[k]) by {
        assert(a[k] == d1[k - m]);
    }
    assert forall|k: int| m <= k < m + n implies is_digit(#[trigger] b[k]) by {
        assert(b[k] == d2[k - m]);
    }
    if s.len() > 0 {
        assert(a[m + n] == s[0] && b[m + n] == s[0]);
    }
    lemma_digit_run_of_block(a, m, m + n);
    lemma_digit_run_of_block(b, m, m + n);
    assert(a[m] == d1[0] && b[m] == d2[0]);
    assert(zero_run_end(a, m, m + n) == m);
    assert(zero_run_end(b, m, m + n) == m);
    assert(a.subrange(m, m + n) =~= d1);
    assert(b.subrange(m, m + n) =~= d2);
    lemma_lex_order_is_numeric(d1, d2);
    if lex_order(d1, d2) == 0 {
        lemma_lex_order_zero(d1, d2);
        assert(a =~= b);
        lemma_natural_equal_from(a, b, m + n);
    }
}

/// A longer number is greater: two names that are the same up to a run of digits without a
/// leading zero compare by the lengths of those runs when the lengths differ, whatever
/// follows the runs (`file9` before `file10`). The runs are whole runs: `p` ends and `s1`,
/// `s2` start with no digit.
pub proof fn lemma_natural_order_longer_number_greater(
    p: Seq<u8>,
    d1: Seq<u8>,
    s1: Seq<u8>,
    d2: Seq<u8>,
    s2: Seq<u8>,
)
    requires
        d1.len() > 0,
        d2.len() > 0,
        d1.len() != d2.len(),
        all_digits(d1),
        all_digits(d2),
        d1[0] != 48,
        d2[0] != 48,
        p.len() == 0 || !is_digit(p.last()),
        s1.len() == 0 || !is_digit(s1[0]),
        s2.len() == 0 || !is_digit(s2[0]),
    ensures
        natural_order(p + d1 + s1, p + d2 + s2) == compare_int(d1.len() as int, d2.len() as int),
{
    let a = p + d1 + s1;
    let b = p + d2 + s2;
    let m = p.len() as int;
    let n1 = d1.len() as int;
    let n2 = d2.len() as int;
    assert forall|k: int| 0 <= k < m implies #[trigger] a[k] == b[k] by {
        assert(a[k] == p[k] && b[k] == p[k]);
    }
    if m > 0 {
        assert(a[m - 1] == p.last());
    }
    lemma_natural_common_prefix(a, b, 0, m);
    assert forall|k: int| m <= k < m + n1 implies is_digit(#[trigger] a[k]) by {
        assert(a[k] == d1[k - m]);
    }
    assert forall|k: int| m <= k < m + n2 implies is_digit(#[trigger] b[k]) by {
        assert(b[k] == d2[k - m]);
    }
    if s1.len() > 0 {
        assert(a[m + n1] == s1[0]);
    }
    if s2.len() > 0 {
        assert(b[m + n2] == s2[0]);
    }
    lemma_digit_run_of_block(a, m, m + n1);
    lemma_digit_run_of_block(b, m, m + n2);
    assert(a[m] == d1[0] && b[m] == d2[0]);
    assert(zero_run_end(a, m, m + n1) == m);
    assert(zero_run_end(b, m, m + n2) == m);
}

proof fn lemma_zero_run_of_block(a: Seq<u8>, i: int, j: int, e: int)
    requires
        0 <= i <= j <= e <= a.len(),
        forall|k: int| i <= k < j ==> #[trigger] a[k] == 48,
        j == e || a[j] != 48,
    ensures
        zero_run_end(a, i, e) == j,
    decreases j - i,
{
    if i < j {
        lemma_zero_run_of_block(a, i + 1, j, e);
    }
}

/// Leading zeros break ties: two names that are the same up to runs of digits writing the same
/// number, one with more leading zeros than the other, put the one with more zeros last,
/// whatever follows the runs (`a1` before `a01`). The runs are whole runs: `p` ends and `s1`,
/// `s2` start with no digit.
pub proof fn lemma_natural_order_leading_zeros(
    p: Seq<u8>,
    z1: Seq<u8>,
    z2: Seq<u8>,
    d: Seq<u8>,
    s1: Seq<u8>,
    s2: Seq<u8>,
)
    requires
        forall|k: int| 0 <= k < z1.len() ==> #[trigger] z1[k] == 48,
        forall|k: int| 0 <= k < z2.len() ==> #[trigger] z2[k] == 48,
        z1.len() != z2.len(),
        d.len() > 0,
        all_digits(d),
        d[0] != 48,
        p.len() == 0 || !is_digit(p.last()),
        s1.len() == 0 || !is_digit(s1[0]),
        s2.len() == 0 || !is_digit(s2[0]),
    ensures
        natural_order(p + z1 + d + s1, p + z2 + d + s2) == compare_int(
            z1.len() as int,
            z2.len() as int,
        ),
{
    let a = p + z1 + d + s1;
    let b = p + z2 + d + s2;
    let m = p.len() as int;
    let k1 = z1.len() as int;
    let k2 = z2.len() as int;
    let n = d.len() as int;
    assert forall|k: int| 0 <= k < m implies #[trigger] a[k] == b[k] by {
        assert(a[k] == p[k] && b[k] == p[k]);
    }
    if m > 0 {
        assert(a[m - 1] == p.last());
    }
    lemma_natural_common_prefix(a, b, 0, m);
    assert forall|k: int| m <= k < m + k1 implies #[trigger] a[k] == 48 by {
        assert(a[k] == z1[k - m]);
    }
    assert forall|k: int| m <= k < m + k2 implies #[trigger] b[k] == 48 by {
        assert(b[k] == z2[k - m]);
    }
    assert forall|k: int| m <= k < m + k1 + n implies is_digit(#[trigger] a[k]) by {
        if k < m + k1 {
            assert(a[k] == z1[k - m]);
        } else {
            assert(a[k] == d[k - m - k1]);
        }
    }
    assert forall|k: int| m <= k < m + k2 + n implies is_digit(#[trigger] b[k]) by {
        if k < m + k2 {
            assert(b[k] == z2[k - m]);
        } else {
            assert(b[k] == d[k - m - k2]);
        }
    }
    if s1.len() > 0 {
        assert(a[m + k1 + n] == s1[0]);
    }
    if s2.len() > 0 {
        assert(b[m + k2 + n] == s2[0]);
    }
    lemma_digit_run_of_block(a, m, m + k1 + n);
    lemma_digit_run_of_block(b, m, m + k2 + n);
    assert(a[m + k1] == d[0] && b[m + k2] == d[0]);
    lemma_zero_run_of_block(a, m, m + k1, m + k1 + n);
    lemma_zero_run_of_block(b, m, m + k2, m + k2 + n);
    assert(a.subrange(m + k1, m + k1 + n) =~= d);
    assert(b.subrange(m + k2, m + k2 + n) =~= d);
    lemma_lex_order_zero(d, d);
    if k1 == 0 {
        assert(a[m] == d[0]);
    } else {
        assert(a[m] == z1[0]);
    }
    if k2 == 0 {
        assert(b[m] == d[0]);
    } else {
        assert(b[m] == z2[0]);
    }
}

/// Other bytes compare ASCII case-insensitively: two names that are the same up to a byte that
/// is no digit on either side compare as those bytes do once lower-cased, when they differ
/// so, whatever follows (`a` before `B`). `p` ends with no digit.
pub proof fn lemma_natural_order_letters(p: Seq<u8>, c1: u8, s1: Seq<u8>, c2: u8, s2: Seq<u8>)
    requires
        !is_digit(c1),
        !is_digit(c2),
        ascii_lower(c1) != ascii_lower(c2),
        p.len() == 0 || !is_digit(p.last()),
    ensures
        natural_order(p + seq![c1] + s1, p + seq![c2] + s2) == compare_int(
            ascii_lower(c1) as int,
            ascii_lower(c2) as int,
        ),
{
    let a = p + seq![c1] + s1;
    let b = p + seq![c2] + s2;
    let m = p.len() as int;
    assert forall|k: int| 0 <= k < m implies #[trigger] a[k] == b[k] by {
        assert(a[k] == p[k] && b[k] == p[k]);
    }
    if m > 0 {
        assert(a[m - 1] == p.last());
    }
    lemma_natural_common_prefix(a, b, 0, m);
    assert(a[m] == c1 && b[m] == c2);
}

/// A name that another one extends comes first: `p` is before `p` followed by anything more,
/// when `p` does not end in the middle of a run of digits (it is empty or ends with no digit).
pub proof fn lemma_natural_order_prefix_first(p: Seq<u8>, t: Seq<u8>)
    requires
        t.len() > 0,
        p.len() == 0 || !is_digit(p.last()),
    ensures
        natural_order(p, p + t) == -1,
{
    let b = p + t;
    let m = p.len() as int;
    assert forall|k: int| 0 <= k < m implies #[trigger] p[k] == b[k] by {
        assert(b[k] == p[k]);
    }
    lemma_natural_common_prefix(p, b, 0, m);
}

// ---------------------------------------------------------------------------
// Sorting directory entries
// ---------------------------------------------------------------------------

/// Order of directory entries: directories before files, then by the
/// natural order of their names (-1, 0, 1).
#[verifier::opaque]
pub open spec fn entry_order(x: DirEntry, y: DirEntry) -> int {
    match (x.kind, y.kind) {
        (FsNodeKind::Dir, FsNodeKind::File) => -1,
        (FsNodeKind::File, FsNodeKind::Dir) => 1,
        _ => natural_order(utf8_bytes(x.name@), utf8_bytes(y.name@)),
    }
}

/// The UTF-8 bytes of a string's characters.
pub open spec fn utf8_bytes(s: Seq<char>) -> Seq<u8> {
    vstd::utf8::encode_utf8(s)
}

/// Whether consecutive entries are in order.
pub open spec fn entries_sorted(s: Seq<DirEntry>) -> bool {
    forall|i: int| 0 <= i < s.len() - 1 ==> entry_order(#[trigger] s[i], s[i + 1]) <= 0
}

fn entry_order_exec(x: &DirEntry, y: &DirEntry) -> (r: i8)
    ensures
        r as int == entry_order(*x, *y),
{
    reveal(entry_order);
    match (x.kind, y.kind) {
        (FsNodeKind::Dir, FsNodeKind::File) => -1,
        (FsNodeKind::File, FsNodeKind::Dir) => 1,
        _ => natural_order_bytes(x.name.as_str().as_bytes(), y.name.as_str().as_bytes()),
    }
}

/// Where a stable insertion puts `x` into `s`: before the first entry that
/// `x` strictly precedes, after all others.
pub open spec fn insert_position(s: Seq<DirEntry>, x: DirEntry) -> int
    decreases s.len(),
{
    if s.len() == 0 {
        0
    } else if entry_order(x, s[0]) < 0 {
        0
    } else {
        1 + insert_position(s.drop_first(), x)
    }
}

/// The stable sort of `s` by `entry_order`: each entry, in input order, is
/// inserted after every earlier entry that it does not strictly precede.
pub open spec fn stable_sorted(s: Seq<DirEntry>) -> Seq<DirEntry>
    decreases s.len(),
{
    if s.len() == 0 {
        s
    } else {
        let r = stable_sorted(s.drop_last());
        r.insert(insert_position(r, s.last()), s.last())
    }
}

proof fn lemma_insert_position(s: Seq<DirEntry>, x: DirEntry, p: int)
    requires
        0 <= p <= s.len(),
        forall|k: int| 0 <= k < p ==> entry_order(x, #[trigger] s[k]) >= 0,
        p < s.len() ==> entry_order(x, s[p]) < 0,
    ensures
        insert_position(s, x) == p,
    decreases p,
{
    if p > 0 {
        assert(entry_order(x, s[0]) >= 0);
        let t = s.drop_first();
        assert forall|k: int| 0 <= k < p - 1 implies entry_order(x, #[trigger] t[k]) >= 0 by {
            assert(t[k] == s[k + 1]);
        }
        if p < s.len() {
            assert(t[p - 1] == s[p]);
        }
        lemma_insert_position(t, x, p - 1);
    }
}

proof fn lemma_entry_order_antisymmetric(x: DirEntry, y: DirEntry)
    ensures
        entry_order(x, y) == -entry_order(y, x),
{
    reveal(entry_order);
    lemma_natural_order_antisymmetric(utf8_bytes(x.name@), utf8_bytes(y.name@));
}

proof fn lemma_entry_order_transitive(x: DirEntry, y: DirEntry, z: DirEntry)
    requires
        entry_order(x, y) <= 0,
        entry_order(y, z) <= 0,
    ensures
        entry_order(x, z) <= 0,
{
    reveal(entry_order);
    if x.kind == y.kind && y.kind == z.kind {
        lemma_natural_order_transitive(
            utf8_bytes(x.name@),
            utf8_bytes(y.name@),
            utf8_bytes(z.name@),
        );
    }
}

/// In a list whose neighbours are in order, every earlier entry is in order
/// with every later one: directories come before files, and within each kind
/// names never go down in the natural order.
pub proof fn lemma_sorted_entries_pairwise(s: Seq<DirEntry>, i: int, j: int)
    requires
        entries_sorted(s),
        0 <= i <= j < s.len(),
    ensures
        entry_order(s[i], s[j]) <= 0,
    decreases j - i,
{
    if i == j {
        reveal(entry_order);
        lemma_natural_order_reflexive(utf8_bytes(s[i].name@));
    } else {
        lemma_sorted_entries_pairwise(s, i, j - 1);
        assert(entry_order(s[j - 1], s[j]) <= 0);
        lemma_entry_order_transitive(s[i], s[j - 1], s[j]);
    }
}

/// Directories come first: in a sorted listing no file comes before a directory, and two
/// entries of the same kind never have names going down in the natural order.
pub proof fn lemma_sorted_directories_first(s: Seq<DirEntry>, i: int, j: int)
    requires
        entries_sorted(s),
        0 <= i < j < s.len(),
    ensures
        !(s[i].kind == FsNodeKind::File && s[j].kind == FsNodeKind::Dir),
        s[i].kind == s[j].kind ==> natural_order(utf8_bytes(s[i].name@), utf8_bytes(s[j].name@))
            <= 0,
{
    lemma_sorted_entries_pairwise(s, i, j);
    reveal(entry_order);
}

/// Sorting a list that is already in order leaves it as it is; so sorting
/// twice gives what sorting once gives.
pub proof fn lemma_sorting_sorted_entries_keeps_them(s: Seq<DirEntry>)
    requires
        entries_sorted(s),
    ensures
        stable_sorted(s) == s,
    decreases s.len(),
{
    if s.len() > 0 {
        let t = s.drop_last();
        assert(entries_sorted(t)) by {
            assert forall|i: int| 0 <= i < t.len() - 1 implies entry_order(
                #[trigger] t[i],
                t[i + 1],
            ) <= 0 by {
                assert(t[i] == s[i] && t[i + 1] == s[i + 1]);
            }
        }
        lemma_sorting_sorted_entries_keeps_them(t);
        assert forall|k: int| 0 <= k < t.len() implies entry_order(s.last(), #[trigger] t[k])
            >= 0 by {
            lemma_sorted_entries_pairwise(s, k, s.len() - 1);
            lemma_entry_order_antisymmetric(s.last(), s[k]);
        }
        lemma_insert_position(t, s.last(), t.len() as int);
        assert(t.insert(t.len() as int, s.last()) =~= s);
    }
}

proof fn lemma_insert_sorted(before: Seq<DirEntry>, p: int, x: DirEntry)
    requires
        0 <= p <= before.len(),
        entries_sorted(before),
        p > 0 ==> entry_order(before[p - 1], x) <= 0,
        p < before.len() ==> entry_order(x, before[p]) <= 0,
    ensures
        entries_sorted(before.insert(p, x)),
{
    let s = before.insert(p, x);
    assert forall|i: int| 0 <= i < s.len() - 1 implies entry_order(#[trigger] s[i], s[i + 1])
        <= 0 by {
        if i < p - 1 {
            assert(s[i] == before[i] && s[i + 1] == before[i + 1]);
        } else if i == p - 1 {
            assert(s[i] == before[i] && s[i + 1] == x);
        } else if i == p {
            assert(s[i] == x && s[i + 1] == before[i]);
        } else {
            assert(s[i] == before[i - 1] && s[i + 1] == before[i]);
        }
    }
}

/// Sorts directory entries: directories first, then names in natural
/// order. An entry is placed after every entry it does not precede, so
/// entries that compare equal keep their relative order.
pub fn sort_dir_entries(entries: &mut Vec<DirEntry>)
    ensures
        final(entries)@ == stable_sorted(old(entries)@),
        final(entries)@.to_multiset() == old(entries)@.to_multiset(),
        entries_sorted(final(entries)@),
{
    let ghost orig = entries@;
    let mut sorted: Vec<DirEntry> = Vec::new();
    let n = entries.len();
    let mut taken: usize = 0;
    assert(orig.subrange(0, 0).to_multiset() =~= sorted@.to_multiset()) by {
        assert(orig.subrange(0, 0) =~= sorted@);
    }
    while entries.len() > 0
        invariant
            taken + entries@.len() == n,
            n == orig.len(),
            entries@ == orig.subrange(taken as int, n as int),
            sorted@.to_multiset() == orig.subrange(0, taken as int).to_multiset(),
            entries_sorted(sorted@),
            sorted@ == stable_sorted(orig.subrange(0, taken as int)),
        decreases entries@.len(),
    {
        let x = entries.remove(0);
        assert(x == orig[taken as int]);
        let mut p: usize = 0;
        while p < sorted.len() && entry_order_exec(&x, &sorted[p]) >= 0
            invariant
                p <= sorted@.len(),
                forall|k: int| 0 <= k < p ==> entry_order(x, #[trigger] sorted@[k]) >= 0,
            decreases sorted@.len() - p,
        {
            p += 1;
        }
        proof {
            if p > 0 {
                lemma_entry_order_antisymmetric(x, sorted@[p - 1]);
            }
            lemma_insert_position(sorted@, x, p as int);
            let pre = orig.subrange(0, taken + 1);
            assert(pre.drop_last() =~= orig.subrange(0, taken as int));
            assert(pre.last() == x);
            lemma_insert_sorted(sorted@, p as int, x);
            vstd::seq_lib::to_multiset_insert(sorted@, p as int, x);
            assert(orig.subrange(0, taken + 1) =~= orig.subrange(0, taken as int).push(x));
            vstd::seq_lib::to_multiset_build(orig.subrange(0, taken as int), x);
        }
        sorted.insert(p, x);
        proof {
            assert(entries@ =~= orig.subrange(taken + 1, n as int));
        }
        taken += 1;
    }
    assert(orig.subrange(0, n as int) =~= orig);
    assert(orig.subrange(0, taken as int) =~= orig);
    *entries = sorted;
}

// ---------------------------------------------------------------------------
// Response checks and messages
// ---------------------------------------------------------------------------

/// The message for a file-system error code returned by operation `op` on
/// `path`.
pub open spec fn fs_error_message(op: Seq<char>, path: Seq<char>, err: FsError) -> Seq<char> {
    match err {
        FsError::Success => op + " returned unexpected ok sentinel for "@ + path,
        FsError::NotFound => "path not found: "@ + path,
        FsError::NotDir => "not a directory: "@ + path,
        FsError::IsDir => "is a directory: "@ + path,
        FsError::OffsetOutOfRange => "offset out of range for "@ + path,
        FsError::Io => "filesystem I/O error during "@ + op + " for "@ + path,
        FsError::Busy => "path is busy/protected during "@ + op + ": "@ + path,
        FsError::EpochMismatch => "filesystem changed during "@ + op + " for "@ + path,
    }
}

/// The message for a file-system error code returned by operation `op` on
/// `path`.
pub fn map_fs_error(op: &str, path: &str, err: FsError) -> (r: String)
    ensures
        r@ == fs_error_message(op@, path@, err),
{
    match err {
        FsError::Success => {
            let mut s = op.to_owned();
            s.append(" returned unexpected ok sentinel for ");
            s.append(path);
            s
        },
        FsError::NotFound => {
            let mut s = "path not found: ".to_owned();
            s.append(path);
            s
        },
        FsError::NotDir => {
            let mut s = "not a directory: ".to_owned();
            s.append(path);
            s
        },
        FsError::IsDir => {
            let mut s = "is a directory: ".to_owned();
            s.append(path);
            s
        },
        FsError::OffsetOutOfRange => {
            let mut s = "offset out of range for ".to_owned();
            s.append(path);
            s
        },
        FsError::Io => {
            let mut s = "filesystem I/O error during ".to_owned();
            s.append(op);
            s.append(" for ");
            s.append(path);
            s
        },
        FsError::Busy => {
            let mut s = "path is busy/protected during ".to_owned();
            s.append(op);
            s.append(": ");
            s.append(path);
            s
        },
        FsError::EpochMismatch => {
            let mut s = "filesystem changed during ".to_owned();
            s.append(op);
            s.append(" for ");
            s.append(path);
            s
        },
    }
}

/// Checks the result code of a file-system response: anything but `Ok` is
/// an error with its message.
pub fn check_fs_result(op: &str, path: &str, err: FsError) -> (r: Result<(), String>)
    ensures
        err == FsError::Success ==> r is Ok,
        err != FsError::Success ==> (r matches Err(m) && m@ == fs_error_message(op@, path@, err)),
{
    if err != FsError::Success {
        return Err(map_fs_error(op, path, err));
    }
    Ok(())
}

/// Checks the answer to a reset request.
pub fn check_reset_accepted(ok: bool) -> (r: Result<(), String>)
    ensures
        ok ==> r is Ok,
        !ok ==> (r matches Err(m) && m@ == "device rejected reset request"@),
{
    if !ok {
        return Err("device rejected reset request".to_owned());
    }
    Ok(())
}

/// Checks the answer to a panic request.
pub fn check_panic_accepted(accepted: bool) -> (r: Result<(), String>)
    ensures
        accepted ==> r is Ok,
        !accepted ==> (r matches Err(m) && m@ == "device rejected panic request"@),
{
    if !accepted {
        return Err("device rejected panic request".to_owned());
    }
    Ok(())
}

/// A read is refused on anything but a file.
pub fn check_is_file(kind: FsNodeKind, path: &str) -> (r: Result<(), String>)
    ensures
        kind == FsNodeKind::File ==> r is Ok,
        kind == FsNodeKind::Dir ==> (r matches Err(m) && m@ == "is a directory: "@ + path@),
{
    if kind != FsNodeKind::File {
        let mut s = "is a directory: ".to_owned();
        s.append(path);
        return Err(s);
    }
    Ok(())
}

/// The report of the file-system limits.
pub open spec fn storage_report_text(report: StorageReport) -> Seq<char> {
    "Filesystem info:\n  Epoch: "@ + decimal(report.epoch as nat) + "\n  Max chunk: "@ + decimal(
        report.max_chunk as nat,
    ) + " bytes\n  Max dir entries/page: "@ + decimal(report.max_dir_entries as nat)
}

/// Renders the file-system limits for the `info` command.
pub fn format_storage_report(report: &StorageReport) -> (r: String)
    ensures
        r@ == storage_report_text(*report),
{
    let mut s = "Filesystem info:\n  Epoch: ".to_owned();
    push_decimal(&mut s, report.epoch as u64);
    s.append("\n  Max chunk: ");
    push_decimal(&mut s, report.max_chunk as u64);
    s.append(" bytes\n  Max dir entries/page: ");
    push_decimal(&mut s, report.max_dir_entries as u64);
    s
}

/// The limits that a file-system information response reports.
pub fn storage_report_of(epoch: u32, max_chunk: u16, max_dir_entries: u16) -> (r: StorageReport)
    ensures
        r.epoch == epoch,
        r.max_chunk == max_chunk,
        r.max_dir_entries == max_dir_entries,
{
    StorageReport { epoch, max_chunk, max_dir_entries }
}

// ---------------------------------------------------------------------------
// Directory listing
// ---------------------------------------------------------------------------

/// The page size requested when listing: the board's maximum, at least 1.
pub fn list_page_size(max_dir_entries: u16) -> (r: u16)
    ensures
        r == (if max_dir_entries == 0 { 1 } else { max_dir_entries }),
{
    if max_dir_entries == 0 {
        1
    } else {
        max_dir_entries
    }
}

/// Whether a name is `.` or `..`.
pub open spec fn is_dot_name(s: Seq<char>) -> bool {
    s == seq!['.'] || s == seq!['.', '.']
}

fn is_dot_name_str(s: &str) -> (r: bool)
    ensures
        r == is_dot_name(s@),
{
    let n = s.unicode_len();
    if n == 1 && s.get_char(0) == '.' {
        assert(s@ =~= seq!['.']);
        return true;
    }
    if n == 2 && s.get_char(0) == '.' && s.get_char(1) == '.' {
        assert(s@ =~= seq!['.', '.']);
        return true;
    }
    false
}

/// The entries of a page that are kept: all but `.` and `..`, in order.
pub open spec fn kept_entries(page: Seq<FsDirEntry>) -> Seq<(FsNodeKind, Seq<char>)>
    decreases page.len(),
{
    if page.len() == 0 {
        Seq::empty()
    } else {
        let rest = kept_entries(page.drop_last());
        let e = page.last();
        if is_dot_name(e.name@) {
            rest
        } else {
            rest.push((e.kind, e.name@))
        }
    }
}

/// Kind and name of each entry.
pub open spec fn entry_views(s: Seq<DirEntry>) -> Seq<(FsNodeKind, Seq<char>)> {
    Seq::new(s.len(), |i: int| (s[i].kind, s[i].name@))
}

/// What the listing loop does after one page.
#[derive(Debug, Clone, Copy, PartialEq, Eq, Structural)]
pub enum ListDirStep {
    /// Ask for the next page at this cursor.
    Continue(u32),
    /// The listing is complete; the entries are to be sorted.
    Done,
}

/// Applies one page of a directory listing to the entries gathered so far.
///
/// An error code ends the listing with its message. Otherwise the page's
/// entries other than `.` and `..` are appended, and a zero next cursor
/// ends the listing.
pub fn apply_dir_page(out: &mut Vec<DirEntry>, resp: FsListDirResp, path: &str) -> (r: Result<
    ListDirStep,
    String,
>)
    ensures
        resp.err != FsError::Success ==> (r matches Err(m) && m@ == fs_error_message(
            "fs/list_dir"@,
            path@,
            resp.err,
        ) && final(out)@ == old(out)@),
        resp.err == FsError::Success && resp.next_cursor != 0 ==> (r == Ok::<ListDirStep, String>(
            ListDirStep::Continue(resp.next_cursor),
        ) && entry_views(final(out)@) == entry_views(old(out)@) + kept_entries(resp.entries@)),
        resp.err == FsError::Success && resp.next_cursor == 0 ==> (r == Ok::<ListDirStep, String>(
            ListDirStep::Done,
        ) && entry_views(final(out)@) == entry_views(old(out)@) + kept_entries(resp.entries@)),
{
    if resp.err != FsError::Success {
        return Err(map_fs_error("fs/list_dir", path, resp.err));
    }
    let FsListDirResp { err: _, epoch: _, entries, next_cursor } = resp;
    let ghost page = entries@;
    let mut entries = entries;
    let n = entries.len();
    let mut i: usize = 0;
    let ghost start = out@;
    while entries.len() > 0
        invariant
            i + entries@.len() == n,
            n == page.len(),
            entries@ == page.subrange(i as int, n as int),
            entry_views(out@) == entry_views(start) + kept_entries(page.subrange(0, i as int)),
        decreases entries@.len(),
    {
        let FsDirEntry { kind, name } = entries.remove(0);
        proof {
            assert(page.subrange(0, i + 1).drop_last() =~= page.subrange(0, i as int));
            assert(page.subrange(0, i + 1).last() == page[i as int]);
        }
        if !is_dot_name_str(name.as_str()) {
            let ghost before = out@;
            out.push(DirEntry { kind, name });
            proof {
                assert(entry_views(out@) =~= entry_views(before).push((kind, page[i as int].name@)));
            }
        }
        i += 1;
    }
    assert(page.subrange(0, n as int) =~= page);
    if next_cursor == 0 {
        return Ok(ListDirStep::Done);
    }
    Ok(ListDirStep::Continue(next_cursor))
}

// ---------------------------------------------------------------------------
// Reading a file in chunks
// ---------------------------------------------------------------------------

/// The length of the next chunk to request: the board's maximum chunk (at
/// least 1), capped by what remains of the file, and never 0.
pub open spec fn read_request_len(max_chunk: u16, target_size: u32, offset: u32) -> int {
    let chunk = if max_chunk == 0 { 1 } else { max_chunk as int };
    let remaining = if offset <= target_size { target_size - offset } else { 0 };
    let req = if chunk <= remaining { chunk } else { remaining };
    if req == 0 { 1 } else { req }
}

/// The length of the next chunk to request.
pub fn next_read_len(max_chunk: u16, target_size: u32, offset: u32) -> (r: u16)
    ensures
        r as int == read_request_len(max_chunk, target_size, offset),
{
    let chunk: u16 = if max_chunk == 0 {
        1
    } else {
        max_chunk
    };
    let remaining: u32 = if offset <= target_size {
        target_size - offset
    } else {
        0
    };
    let req: u16 = if (chunk as u32) <= remaining {
        chunk
    } else {
        remaining as u16
    };
    if req == 0 {
        1
    } else {
        req
    }
}

/// What a pull does with a chunk response.
#[derive(Debug)]
pub enum PullStep {
    /// Fail with this message; nothing of the chunk is written.
    Fail(String),
    /// Write the chunk to the local file, then fail with this message (before reporting
    /// progress).
    WriteThenFail(String),
    /// Write the chunk, report progress, then fail with this message.
    WriteReportThenFail(String),
    /// Write the chunk, report progress, and go on at this offset.
    Continue(u32),
}

/// What a pull does with the response to the chunk request at `offset` of a file of
/// `target_size` bytes.
///
/// An error code fails with its message; so do a chunk at another offset than requested and
/// an empty chunk, before anything is written. Otherwise the chunk is written; an offset past
/// `u32::MAX` then fails before progress is reported, and data past the file's size fails
/// after it.
pub fn pull_step(path: &str, offset: u32, target_size: u32, resp: &FsReadFileResp) -> (r:
    PullStep)
    ensures
        resp.err != FsError::Success ==> (r matches PullStep::Fail(m) && m@ == fs_error_message(
            "fs/read"@,
            path@,
            resp.err,
        )),
        resp.err == FsError::Success && resp.offset != offset ==> (r matches PullStep::Fail(m) && m@
            == "rpc fs/read returned unexpected offset: expected "@ + decimal(offset as nat)
            + ", got "@ + decimal(resp.offset as nat)),
        resp.err == FsError::Success && resp.offset == offset && resp.data@.len() == 0 ==> (r matches PullStep::Fail(
            m,
        ) && m@ == "rpc fs/read returned empty data before reaching snapshot size at offset "@
            + decimal(offset as nat)),
        resp.err == FsError::Success && resp.offset == offset && resp.data@.len() > 0 ==> ({
            let next = offset + resp.data@.len();
            &&& next > u32::MAX ==> (r matches PullStep::WriteThenFail(m) && m@
                == "offset overflow while pulling "@ + path@)
            &&& next <= u32::MAX && next > target_size ==> (r matches PullStep::WriteReportThenFail(
                m,
            ) && m@ == "rpc fs/read returned more bytes than requested snapshot size for "@
                + path@)
            &&& next <= target_size ==> (r matches PullStep::Continue(n) && n == next)
        }),
{
    if resp.err != FsError::Success {
        return PullStep::Fail(map_fs_error("fs/read", path, resp.err));
    }
    if resp.offset != offset {
        let mut s = "rpc fs/read returned unexpected offset: expected ".to_owned();
        push_decimal(&mut s, offset as u64);
        s.append(", got ");
        push_decimal(&mut s, resp.offset as u64);
        return PullStep::Fail(s);
    }
    let len = resp.data.len();
    if len == 0 {
        let mut s = "rpc fs/read returned empty data before reaching snapshot size at offset ".to_owned();
        push_decimal(&mut s, offset as u64);
        return PullStep::Fail(s);
    }
    if len as u64 > (u32::MAX - offset) as u64 {
        let mut s = "offset overflow while pulling ".to_owned();
        s.append(path);
        return PullStep::WriteThenFail(s);
    }
    let next = offset + len as u32;
    if next > target_size {
        let mut s = "rpc fs/read returned more bytes than requested snapshot size for ".to_owned();
        s.append(path);
        return PullStep::WriteReportThenFail(s);
    }
    PullStep::Continue(next)
}

/// What a chunk response adds to a file being read, and where reading
/// continues.
///
/// An error code fails with its message; so does a chunk at another offset
/// than requested, an empty chunk, an offset past `u32::MAX` and data past
/// the file's size. Otherwise the chunk is appended and the new offset
/// returned.
pub fn accept_read_chunk(
    out: &mut Vec<u8>,
    path: &str,
    offset: u32,
    target_size: u32,
    resp: &FsReadFileResp,
) -> (r: Result<u32, String>)
    ensures
        resp.err != FsError::Success ==> (r matches Err(m) && m@ == fs_error_message(
            "fs/read"@,
            path@,
            resp.err,
        )),
        resp.err == FsError::Success && resp.offset != offset ==> (r matches Err(m) && m@
            == "rpc fs/read returned unexpected offset: expected "@ + decimal(offset as nat)
            + ", got "@ + decimal(resp.offset as nat)),
        resp.err == FsError::Success && resp.offset == offset && resp.data@.len() == 0 ==> (r matches Err(
            m,
        ) && m@ == "rpc fs/read returned empty data before reaching snapshot size at offset "@
            + decimal(offset as nat)),
        resp.err == FsError::Success && resp.offset == offset && resp.data@.len() > 0 ==> ({
            let next = offset + resp.data@.len();
            &&& next > u32::MAX ==> (r matches Err(m) && m@ == "offset overflow while reading "@
                + path@)
            &&& next <= u32::MAX && next > target_size ==> (r matches Err(m) && m@
                == "rpc fs/read returned more bytes than requested snapshot size for "@ + path@)
            &&& next <= target_size ==> (r == Ok::<u32, String>(next as u32) && final(out)@
                == old(out)@ + resp.data@)
        }),
        resp.err == FsError::Success && resp.offset == offset && resp.data@.len() > 0
            ==> final(out)@ == old(out)@ + resp.data@,
        !(resp.err == FsError::Success && resp.offset == offset && resp.data@.len() > 0)
            ==> final(out)@ == old(out)@,
{
    if resp.err != FsError::Success {
        return Err(map_fs_error("fs/read", path, resp.err));
    }
    if resp.offset != offset {
        let mut s = "rpc fs/read returned unexpected offset: expected ".to_owned();
        push_decimal(&mut s, offset as u64);
        s.append(", got ");
        push_decimal(&mut s, resp.offset as u64);
        return Err(s);
    }
    let chunk = resp.data.as_slice();
    if chunk.len() == 0 {
        let mut s = "rpc fs/read returned empty data before reaching snapshot size at offset ".to_owned();
        push_decimal(&mut s, offset as u64);
        return Err(s);
    }
    out.extend_from_slice(chunk);
    if chunk.len() as u64 > (u32::MAX - offset) as u64 {
        let mut s = "offset overflow while reading ".to_owned();
        s.append(path);
        return Err(s);
    }
    let next = offset + chunk.len() as u32;
    if next > target_size {
        let mut s = "rpc fs/read returned more bytes than requested snapshot size for ".to_owned();
        s.append(path);
        return Err(s);
    }
    Ok(next)
}

} // verus!
