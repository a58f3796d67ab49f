//! Remote file-system paths of the host tool: normalisation against a
//! working directory, the last path component, and joining a child name.
use vstd::prelude::*;

verus! {

/// Why a path operation failed.
#[derive(Debug)]
pub enum PathError {
    /// The working directory is not absolute.
    InvalidCwd,
    /// The path has no file name (it is `/`, empty or only slashes).
    NoFileName { path: String },
    /// The child segment is empty or contains `/`.
    InvalidChildSegment { child: String },
}

impl PathError {
    /// The message that the host tool shows for this error.
    pub fn message(&self) -> (r: String)
        ensures
            r@ == (match self {
                PathError::InvalidCwd => "invalid cwd: must be absolute"@,
                PathError::NoFileName { path } => "path has no file name: "@ + path@,
                PathError::InvalidChildSegment { child } => "invalid child path segment: "@
                    + child@,
            }),
    {
        match self {
            PathError::InvalidCwd => "invalid cwd: must be absolute".to_owned(),
            PathError::NoFileName { path } => {
                let mut s = "path has no file name: ".to_owned();
                s.append(path.as_str());
                s
            },
            PathError::InvalidChildSegment { child } => {
                let mut s = "invalid child path segment: ".to_owned();
                s.append(child.as_str());
                s
            },
        }
    }
}

/// The pieces of `s` between slashes, as `str::split('/')` yields them:
/// an empty string gives one empty piece, and every slash starts a new one.
pub open spec fn split_slash(s: Seq<char>) -> Seq<Seq<char>>
    decreases s.len(),
{
    if s.len() == 0 {
        seq![Seq::empty()]
    } else {
        let p = split_slash(s.drop_last());
        if s.last() == '/' {
            p.push(Seq::empty())
        } else {
            p.update(p.len() - 1, p.last().push(s.last()))
        }
    }
}

/// Splitting at `/` always gives at least one segment (the empty text gives one empty segment).
pub proof fn lemma_split_slash_nonempty(s: Seq<char>)
    ensures
        split_slash(s).len() >= 1,
    decreases s.len(),
{
    if s.len() > 0 {
        lemma_split_slash_nonempty(s.drop_last());
    }
}

/// The segment `.`.
pub open spec fn is_dot(seg: Seq<char>) -> bool {
    seg == seq!['.']
}

/// The segment `..`.
pub open spec fn is_dot_dot(seg: Seq<char>) -> bool {
    seg == seq!['.', '.']
}

/// One segment applied to a stack of path components.
///
/// When `resolve` holds, empty and `.` segments are skipped, `..` drops the
/// last component (if any) and every other segment is pushed. Otherwise
/// every non-empty segment is pushed as it is.
pub open spec fn segment_step(resolve: bool, stack: Seq<Seq<char>>, seg: Seq<char>) -> Seq<
    Seq<char>,
> {
    if resolve {
        if seg.len() == 0 || is_dot(seg) {
            stack
        } else if is_dot_dot(seg) {
            if stack.len() > 0 {
                stack.drop_last()
            } else {
                stack
            }
        } else {
            stack.push(seg)
        }
    } else {
        if seg.len() == 0 {
            stack
        } else {
            stack.push(seg)
        }
    }
}

/// Segments applied to a stack one after the other.
pub open spec fn fold_segments(resolve: bool, stack: Seq<Seq<char>>, segs: Seq<Seq<char>>) -> Seq<
    Seq<char>,
>
    decreases segs.len(),
{
    if segs.len() == 0 {
        stack
    } else {
        segment_step(resolve, fold_segments(resolve, stack, segs.drop_last()), segs.last())
    }
}

/// Whether a path starts with `/`.
pub open spec fn is_absolute(s: Seq<char>) -> bool {
    s.len() > 0 && s[0] == '/'
}

/// The working directory in effect: an empty one stands for `/`.
pub open spec fn effective_cwd(cwd: Seq<char>) -> Seq<char> {
    if cwd.len() == 0 {
        seq!['/']
    } else {
        cwd
    }
}

/// The components of a normalised path: those of the working directory
/// (for a relative input), then the input's segments resolved against them.
pub open spec fn normalized_components(cwd: Seq<char>, input: Seq<char>) -> Seq<Seq<char>> {
    let init = if is_absolute(input) {
        Seq::empty()
    } else {
        fold_segments(false, Seq::empty(), split_slash(effective_cwd(cwd)))
    };
    fold_segments(true, init, split_slash(input))
}

/// Each component preceded by a slash.
pub open spec fn render_components(stack: Seq<Seq<char>>) -> Seq<char>
    decreases stack.len(),
{
    if stack.len() == 0 {
        Seq::empty()
    } else {
        render_components(stack.drop_last()) + seq!['/'] + stack.last()
    }
}

/// An absolute path with the given components; no components gives `/`.
pub open spec fn render_path(stack: Seq<Seq<char>>) -> Seq<char> {
    if stack.len() == 0 {
        seq!['/']
    } else {
        render_components(stack)
    }
}

/// The views of a sequence of string slices.
pub open spec fn str_views(v: Seq<&str>) -> Seq<Seq<char>> {
    Seq::new(v.len(), |i: int| v[i]@)
}

fn is_dot_str(seg: &str) -> (r: bool)
    ensures
        r == is_dot(seg@),
{
    let n = seg.unicode_len();
    if n == 1 {
        let c = seg.get_char(0);
        if c == '.' {
            assert(seg@ =~= seq!['.']);
            return true;
        }
    }
    false
}

fn is_dot_dot_str(seg: &str) -> (r: bool)
    ensures
        r == is_dot_dot(seg@),
{
    let n = seg.unicode_len();
    if n == 2 {
        let c0 = seg.get_char(0);
        let c1 = seg.get_char(1);
        if c0 == '.' && c1 == '.' {
            assert(seg@ =~= seq!['.', '.']);
            return true;
        }
    }
    false
}

fn apply_segment<'a>(stack: &mut Vec<&'a str>, seg: &'a str, resolve: bool)
    ensures
        str_views(final(stack)@) == segment_step(resolve, str_views(old(stack)@), seg@),
{
    let empty = seg.is_empty();
    if resolve {
        if empty || is_dot_str(seg) {
        } else if is_dot_dot_str(seg) {
            if stack.len() > 0 {
                stack.pop();
                assert(str_views(stack@) =~= str_views(old(stack)@).drop_last());
            }
        } else {
            stack.push(seg);
            assert(str_views(stack@) =~= str_views(old(stack)@).push(seg@));
        }
    } else {
        if !empty {
            stack.push(seg);
            assert(str_views(stack@) =~= str_views(old(stack)@).push(seg@));
        }
    }
}

proof fn lemma_split_slash_step(s: Seq<char>, i: int, start: int, done: Seq<Seq<char>>)
    requires
        0 <= start <= i < s.len(),
        split_slash(s.subrange(0, i)) == done.push(s.subrange(start, i)),
    ensures
        s[i] == '/' ==> split_slash(s.subrange(0, i + 1)) == done.push(s.subrange(start, i)).push(
            s.subrange(i + 1, i + 1),
        ),
        s[i] != '/' ==> split_slash(s.subrange(0, i + 1)) == done.push(s.subrange(start, i + 1)),
{
    let t = s.subrange(0, i + 1);
    assert(t.drop_last() =~= s.subrange(0, i));
    assert(t.last() == s[i]);
    if s[i] == '/' {
        assert(s.subrange(i + 1, i + 1) =~= Seq::<char>::empty());
    } else {
        let p = done.push(s.subrange(start, i));
        assert(s.subrange(start, i).push(s[i]) =~= s.subrange(start, i + 1));
        assert(p.update(p.len() - 1, p.last().push(s[i])) =~= done.push(s.subrange(start, i + 1)));
    }
}

/// Applies every `/`-separated segment of `s` to the stack.
fn push_segments<'a>(s: &'a str, stack: &mut Vec<&'a str>, resolve: bool)
    ensures
        str_views(final(stack)@) == fold_segments(resolve, str_views(old(stack)@), split_slash(s@)),
{
    let ghost init = str_views(stack@);
    let n = s.unicode_len();
    let mut start: usize = 0;
    let mut i: usize = 0;
    let ghost mut done: Seq<Seq<char>> = Seq::empty();
    assert(s@.subrange(0, 0) =~= Seq::<char>::empty());
    assert(done.push(s@.subrange(0, 0)) =~= seq![Seq::<char>::empty()]);
    while i < n
        invariant
            n == s@.len(),
            start <= i <= n,
            split_slash(s@.subrange(0, i as int)) == done.push(s@.subrange(start as int, i as int)),
            str_views(stack@) == fold_segments(resolve, init, done),
        decreases n - i,
    {
        let c = s.get_char(i);
        proof {
            lemma_split_slash_step(s@, i as int, start as int, done);
        }
        if c == '/' {
            let seg = s.substring_char(start, i);
            apply_segment(stack, seg, resolve);
            proof {
                let d2 = done.push(seg@);
                assert(d2.drop_last() =~= done);
                done = d2;
            }
            start = i + 1;
        }
        i += 1;
    }
    let seg = s.substring_char(start, n);
    apply_segment(stack, seg, resolve);
    proof {
        let d2 = done.push(seg@);
        assert(d2.drop_last() =~= done);
        assert(s@.subrange(0, n as int) =~= s@);
    }
}

proof fn lemma_render_components_push(stack: Seq<Seq<char>>, seg: Seq<char>)
    ensures
        render_components(stack.push(seg)) == render_components(stack) + seq!['/'] + seg,
{
    assert(stack.push(seg).drop_last() =~= stack);
}

fn render_stack(stack: &Vec<&str>) -> (r: String)
    ensures
        r@ == render_path(str_views(stack@)),
{
    proof {
        reveal_strlit("/");
    }
    if stack.len() == 0 {
        return "/".to_owned();
    }
    let mut out = String::new();
    let mut i: usize = 0;
    while i < stack.len()
        invariant
            i <= stack@.len(),
            out@ == render_components(str_views(stack@).subrange(0, i as int)),
        decreases stack@.len() - i,
    {
        proof {
            reveal_strlit("/");
            let v = str_views(stack@);
            assert(v.subrange(0, i + 1) =~= v.subrange(0, i as int).push(stack@[i as int]@));
            lemma_render_components_push(v.subrange(0, i as int), stack@[i as int]@);
        }
        out.append("/");
        out.append(stack[i]);
        i += 1;
    }
    assert(str_views(stack@).subrange(0, stack@.len() as int) =~= str_views(stack@));
    out
}

fn starts_with_slash(s: &str) -> (r: bool)
    ensures
        r == is_absolute(s@),
{
    let n = s.unicode_len();
    n > 0 && s.get_char(0) == '/'
}

/// A path component that normalisation keeps as it is: not empty, no slash, not `.` or `..`.
pub open spec fn plain_segment(seg: Seq<char>) -> bool {
    seg.len() > 0 && !seg.contains('/') && !is_dot(seg) && !is_dot_dot(seg)
}

/// Every component of `stack` is plain.
pub open spec fn all_plain(stack: Seq<Seq<char>>) -> bool {
    forall|i: int| 0 <= i < stack.len() ==> plain_segment(#[trigger] stack[i])
}

proof fn lemma_split_slash_no_slash(s: Seq<char>)
    ensures
        forall|i: int|
            0 <= i < split_slash(s).len() ==> !(#[trigger] split_slash(s)[i]).contains('/'),
    decreases s.len(),
{
    lemma_split_slash_nonempty(s);
    if s.len() > 0 {
        lemma_split_slash_no_slash(s.drop_last());
        lemma_split_slash_nonempty(s.drop_last());
        let p = split_slash(s.drop_last());
        assert forall|i: int| 0 <= i < split_slash(s).len() implies !(#[trigger] split_slash(
            s,
        )[i]).contains('/') by {
            if s.last() != '/' && i == p.len() - 1 {
                let seg = p.last().push(s.last());
                if seg.contains('/') {
                    let j = choose|j: int| 0 <= j < seg.len() && seg[j] == '/';
                    if j < p.last().len() {
                        assert(p.last()[j] == '/');
                        assert(p.last().contains('/'));
                    }
                }
            } else if i < p.len() {
                assert(split_slash(s)[i] == p[i]);
            }
        }
    }
}

proof fn lemma_split_slash_concat(a: Seq<char>, b: Seq<char>)
    ensures
        split_slash(a + seq!['/'] + b) == split_slash(a) + split_slash(b),
    decreases b.len(),
{
    let s = a + seq!['/'] + b;
    if b.len() == 0 {
        assert(s.drop_last() =~= a);
        assert(s.last() == '/');
        assert(split_slash(s) =~= split_slash(a) + split_slash(b));
    } else {
        lemma_split_slash_concat(a, b.drop_last());
        assert(s.drop_last() =~= a + seq!['/'] + b.drop_last());
        assert(s.last() == b.last());
        lemma_split_slash_nonempty(b.drop_last());
        let x = split_slash(a);
        let y = split_slash(b.drop_last());
        if b.last() == '/' {
            assert(split_slash(s) =~= x + y.push(Seq::empty()));
        } else {
            assert((x + y).update((x + y).len() - 1, (x + y).last().push(b.last())) =~= x
                + y.update(y.len() - 1, y.last().push(b.last())));
        }
    }
}

proof fn lemma_split_slash_plain(seg: Seq<char>)
    requires
        !seg.contains('/'),
    ensures
        split_slash(seg) == seq![seg],
    decreases seg.len(),
{
    if seg.len() == 0 {
        assert(seg =~= Seq::<char>::empty());
    } else {
        assert(!seg.drop_last().contains('/')) by {
            if seg.drop_last().contains('/') {
                let j = choose|j: int| 0 <= j < seg.drop_last().len() && seg.drop_last()[j] == '/';
                assert(seg[j] == '/');
            }
        }
        lemma_split_slash_plain(seg.drop_last());
        assert(seg.last() != '/') by {
            assert(seg[seg.len() - 1] == seg.last());
        }
        assert(seg.drop_last().push(seg.last()) =~= seg);
        assert(split_slash(seg) =~= seq![seg]);
    }
}

proof fn lemma_split_rendered(stack: Seq<Seq<char>>)
    requires
        all_plain(stack),
    ensures
        split_slash(render_components(stack)) == seq![Seq::<char>::empty()] + stack,
    decreases stack.len(),
{
    if stack.len() == 0 {
        assert(split_slash(Seq::<char>::empty()) =~= seq![Seq::<char>::empty()] + stack);
    } else {
        let init = stack.drop_last();
        assert(all_plain(init)) by {
            assert forall|i: int| 0 <= i < init.len() implies plain_segment(#[trigger] init[i]) by {
                assert(init[i] == stack[i]);
            }
        }
        lemma_split_rendered(init);
        assert(plain_segment(stack[stack.len() - 1]));
        lemma_split_slash_concat(render_components(init), stack.last());
        lemma_split_slash_plain(stack.last());
        assert(render_components(stack) == render_components(init) + seq!['/'] + stack.last());
        assert(seq![Seq::<char>::empty()] + init + seq![stack.last()] =~= seq![
            Seq::<char>::empty(),
        ] + stack);
    }
}

proof fn lemma_fold_plain(stack: Seq<Seq<char>>)
    requires
        all_plain(stack),
    ensures
        fold_segments(true, Seq::empty(), seq![Seq::<char>::empty()] + stack) == stack,
    decreases stack.len(),
{
    let segs = seq![Seq::<char>::empty()] + stack;
    if stack.len() == 0 {
        assert(segs.drop_last() =~= Seq::<Seq<char>>::empty());
        assert(segs.last() == Seq::<char>::empty());
        assert(fold_segments(true, Seq::empty(), segs.drop_last()) == Seq::<Seq<char>>::empty());
        assert(stack =~= Seq::<Seq<char>>::empty());
    } else {
        let init = stack.drop_last();
        assert(all_plain(init)) by {
            assert forall|i: int| 0 <= i < init.len() implies plain_segment(#[trigger] init[i]) by {
                assert(init[i] == stack[i]);
            }
        }
        lemma_fold_plain(init);
        assert(segs.drop_last() =~= seq![Seq::<char>::empty()] + init);
        assert(segs.last() == stack.last());
        assert(plain_segment(stack[stack.len() - 1]));
        assert(fold_segments(true, Seq::empty(), segs.drop_last()) == init);
        assert(segment_step(true, init, stack.last()) == init.push(stack.last()));
        assert(init.push(stack.last()) =~= stack);
    }
}

proof fn lemma_render_starts_with_slash(stack: Seq<Seq<char>>)
    requires
        stack.len() > 0,
    ensures
        render_components(stack).len() > 0,
        render_components(stack)[0] == '/',
    decreases stack.len(),
{
    let init = stack.drop_last();
    if stack.len() == 1 {
        assert(render_components(init) == Seq::<char>::empty());
    } else {
        lemma_render_starts_with_slash(init);
    }
    assert(render_components(stack) == render_components(init) + seq!['/'] + stack.last());
    assert((render_components(init) + seq!['/'] + stack.last())[0] == '/');
}

/// No component is `.` or `..`.
pub open spec fn no_dot_component(stack: Seq<Seq<char>>) -> bool {
    forall|i: int| 0 <= i < stack.len() ==> !is_dot(#[trigger] stack[i]) && !is_dot_dot(stack[i])
}

/// Every component is non-empty and holds no `/`.
spec fn all_solid(stack: Seq<Seq<char>>) -> bool {
    forall|i: int| 0 <= i < stack.len() ==> (#[trigger] stack[i]).len() > 0 && !stack[i].contains(
        '/',
    )
}

proof fn lemma_fold_keeps_solid(resolve: bool, stack: Seq<Seq<char>>, segs: Seq<Seq<char>>)
    requires
        all_solid(stack),
        forall|i: int| 0 <= i < segs.len() ==> !(#[trigger] segs[i]).contains('/'),
    ensures
        all_solid(fold_segments(resolve, stack, segs)),
    decreases segs.len(),
{
    if segs.len() > 0 {
        lemma_fold_keeps_solid(resolve, stack, segs.drop_last());
        let st = fold_segments(resolve, stack, segs.drop_last());
        let next = segment_step(resolve, st, segs.last());
        assert(!segs[segs.len() - 1].contains('/'));
        assert forall|i: int| 0 <= i < next.len() implies (#[trigger] next[i]).len() > 0
            && !next[i].contains('/') by {
            if i < st.len() {
                assert(next[i] == st[i]);
            }
        }
    }
}

proof fn lemma_normalized_plain(cwd: Seq<char>, input: Seq<char>)
    requires
        no_dot_component(normalized_components(cwd, input)),
    ensures
        all_plain(normalized_components(cwd, input)),
{
    let cw = split_slash(effective_cwd(cwd));
    lemma_split_slash_no_slash(effective_cwd(cwd));
    lemma_split_slash_no_slash(input);
    let init = if is_absolute(input) {
        Seq::empty()
    } else {
        fold_segments(false, Seq::empty(), cw)
    };
    if !is_absolute(input) {
        lemma_fold_keeps_solid(false, Seq::empty(), cw);
    }
    lemma_fold_keeps_solid(true, init, split_slash(input));
    let st = normalized_components(cwd, input);
    assert forall|i: int| 0 <= i < st.len() implies plain_segment(#[trigger] st[i]) by {
        assert(st[i].len() > 0 && !st[i].contains('/'));
        assert(!is_dot(st[i]) && !is_dot_dot(st[i]));
    }
}

/// The shape of a normalised path: `/` alone, or `/` followed by components joined with `/`,
/// each non-empty and neither `.` nor `..` (so no doubled or trailing slash).
pub open spec fn normalized_shape(p: Seq<char>) -> bool {
    &&& is_absolute(p)
    &&& p == seq!['/'] || (split_slash(p)[0].len() == 0 && forall|i: int|
        1 <= i < split_slash(p).len() ==> plain_segment(#[trigger] split_slash(p)[i]))
}

/// A normalised path has the shape of one (see `normalized_shape`). This holds whenever no `.`
/// or `..` component of the working directory survives into the result (the working
/// directory's components are taken as they are, without resolving them; the input's `..`
/// can still remove them).
pub proof fn lemma_normalized_shape(cwd: Seq<char>, input: Seq<char>)
    requires
        no_dot_component(normalized_components(cwd, input)),
    ensures
        normalized_shape(render_path(normalized_components(cwd, input))),
{
    lemma_normalized_plain(cwd, input);
    let st = normalized_components(cwd, input);
    let p = render_path(st);
    if st.len() > 0 {
        lemma_split_rendered(st);
        lemma_render_starts_with_slash(st);
        let segs = split_slash(p);
        assert(segs == seq![Seq::<char>::empty()] + st);
        assert forall|i: int| 1 <= i < segs.len() implies plain_segment(#[trigger] segs[i]) by {
            assert(segs[i] == st[i - 1]);
        }
    }
}

/// Normalising is idempotent, and its result no longer depends on the working directory: a
/// normalised path normalises to itself against any working directory `cwd2`. This holds
/// whenever no `.` or `..` component of the working directory `cwd` survives into the result
/// (the working directory's components are taken as they are, without resolving them; the
/// input's `..` can still remove them).
pub proof fn lemma_normalize_idempotent(cwd: Seq<char>, cwd2: Seq<char>, input: Seq<char>)
    requires
        no_dot_component(normalized_components(cwd, input)),
    ensures
        render_path(normalized_components(cwd2, render_path(normalized_components(cwd, input))))
            == render_path(normalized_components(cwd, input)),
{
    lemma_normalize_idempotent_same_cwd(cwd, input);
    let p = render_path(normalized_components(cwd, input));
    assert(normalized_components(cwd2, p) == normalized_components(cwd, p));
}

proof fn lemma_normalize_idempotent_same_cwd(cwd: Seq<char>, input: Seq<char>)
    requires
        no_dot_component(normalized_components(cwd, input)),
    ensures
        is_absolute(render_path(normalized_components(cwd, input))),
        render_path(normalized_components(cwd, render_path(normalized_components(cwd, input))))
            == render_path(normalized_components(cwd, input)),
{
    lemma_normalized_plain(cwd, input);
    let st = normalized_components(cwd, input);
    let p = render_path(st);
    if st.len() == 0 {
        assert(p == seq!['/']);
        assert(p =~= Seq::<char>::empty() + seq!['/'] + Seq::<char>::empty());
        lemma_split_slash_concat(Seq::<char>::empty(), Seq::<char>::empty());
        let e = Seq::<char>::empty();
        let segs = split_slash(p);
        assert(segs =~= seq![e, e]);
        assert(segs.drop_last() =~= seq![e]);
        assert(seq![e].drop_last() =~= Seq::<Seq<char>>::empty());
        assert(fold_segments(true, Seq::empty(), seq![e].drop_last()) == Seq::<Seq<char>>::empty());
        assert(segment_step(true, Seq::<Seq<char>>::empty(), e) == Seq::<Seq<char>>::empty());
        assert(fold_segments(true, Seq::empty(), seq![e]) == Seq::<Seq<char>>::empty());
        assert(fold_segments(true, Seq::empty(), segs) == Seq::<Seq<char>>::empty());
        assert(is_absolute(p));
        assert(normalized_components(cwd, p) == st);
    } else {
        lemma_split_rendered(st);
        lemma_fold_plain(st);
        lemma_render_starts_with_slash(st);
        assert(is_absolute(p));
        assert(normalized_components(cwd, p) == st);
    }
}

/// Normalises `input` against the working directory `cwd`.
///
/// An empty `cwd` stands for `/`; any other must be absolute. A relative
/// input starts from the (non-empty) components of `cwd`; then empty and `.`
/// segments are skipped, `..` drops the last component and any other
/// segment is appended. The result is `/` followed by the components joined
/// with `/`, or `/` alone.
pub fn normalize_path(cwd: &str, input: &str) -> (r: Result<String, PathError>)
    ensures
        !is_absolute(effective_cwd(cwd@)) ==> r == Err::<String, PathError>(PathError::InvalidCwd),
        is_absolute(effective_cwd(cwd@)) ==> (r matches Ok(p) && p@ == render_path(
            normalized_components(cwd@, input@),
        )),
{
    proof {
        reveal_strlit("/");
    }
    let cwd_is_empty = cwd.is_empty();
    let cwd_ok = cwd_is_empty || starts_with_slash(cwd);
    if !cwd_ok {
        return Err(PathError::InvalidCwd);
    }
    let mut parts: Vec<&str> = Vec::new();
    assert(str_views(parts@) =~= Seq::<Seq<char>>::empty());
    let ghost init: Seq<Seq<char>> = if is_absolute(input@) {
        Seq::empty()
    } else {
        fold_segments(false, Seq::empty(), split_slash(effective_cwd(cwd@)))
    };
    if !starts_with_slash(input) {
        if cwd_is_empty {
            assert("/"@ =~= effective_cwd(cwd@));
            push_segments("/", &mut parts, false);
        } else {
            push_segments(cwd, &mut parts, false);
        }
    }
    assert(str_views(parts@) == init);
    push_segments(input, &mut parts, true);
    Ok(render_stack(&parts))
}

/// Index just past the last character of `s` that is not a slash (0 when
/// there is none).
pub open spec fn name_end(s: Seq<char>) -> int
    decreases s.len(),
{
    if s.len() == 0 {
        0
    } else if s.last() == '/' {
        name_end(s.drop_last())
    } else {
        s.len() as int
    }
}

/// Index just past the last slash of `s` (0 when there is none).
pub open spec fn name_start(s: Seq<char>) -> int
    decreases s.len(),
{
    if s.len() == 0 {
        0
    } else if s.last() == '/' {
        s.len() as int
    } else {
        name_start(s.drop_last())
    }
}

/// The last non-empty `/`-separated segment of a path, if there is one.
pub open spec fn last_name(s: Seq<char>) -> Option<Seq<char>> {
    let e = name_end(s);
    if e == 0 {
        None
    } else {
        Some(s.subrange(name_start(s.subrange(0, e)), e))
    }
}

proof fn lemma_name_end_bounds(s: Seq<char>)
    ensures
        0 <= name_end(s) <= s.len(),
        name_end(s) > 0 ==> s[name_end(s) - 1] != '/',
        forall|k: int| name_end(s) <= k < s.len() ==> s[k] == '/',
    decreases s.len(),
{
    if s.len() > 0 {
        lemma_name_end_bounds(s.drop_last());
        assert forall|k: int| name_end(s) <= k < s.len() implies s[k] == '/' by {
            if k < s.len() - 1 {
                assert(s.drop_last()[k] == s[k]);
            }
        }
    }
}

proof fn lemma_name_start_bounds(s: Seq<char>)
    ensures
        0 <= name_start(s) <= s.len(),
        name_start(s) > 0 ==> s[name_start(s) - 1] == '/',
        forall|k: int| name_start(s) <= k < s.len() ==> s[k] != '/',
    decreases s.len(),
{
    if s.len() > 0 {
        lemma_name_start_bounds(s.drop_last());
        assert forall|k: int| name_start(s) <= k < s.len() implies s[k] != '/' by {
            if k < s.len() - 1 {
                assert(s.drop_last()[k] == s[k]);
            }
        }
    }
}

proof fn lemma_name_end_prefix(s: Seq<char>, i: int)
    requires
        0 <= i <= s.len(),
        forall|k: int| i <= k < s.len() ==> s[k] == '/',
    ensures
        name_end(s) == name_end(s.subrange(0, i)),
    decreases s.len() - i,
{
    if i < s.len() {
        assert(s.drop_last().subrange(0, i) =~= s.subrange(0, i));
        lemma_name_end_prefix(s.drop_last(), i);
    } else {
        assert(s.subrange(0, i) =~= s);
    }
}

proof fn lemma_name_start_prefix(s: Seq<char>, i: int)
    requires
        0 <= i <= s.len(),
        forall|k: int| i <= k < s.len() ==> s[k] != '/',
    ensures
        name_start(s) == name_start(s.subrange(0, i)),
    decreases s.len() - i,
{
    if i < s.len() {
        assert(s.drop_last().subrange(0, i) =~= s.subrange(0, i));
        lemma_name_start_prefix(s.drop_last(), i);
    } else {
        assert(s.subrange(0, i) =~= s);
    }
}

proof fn lemma_name_end_at(s: Seq<char>, i: int)
    requires
        0 < i <= s.len(),
        s[i - 1] != '/',
    ensures
        name_end(s.subrange(0, i)) == i,
{
    let t = s.subrange(0, i);
    assert(t.last() == s[i - 1]);
}

proof fn lemma_name_start_at(s: Seq<char>, i: int)
    requires
        0 < i <= s.len(),
        s[i - 1] == '/',
    ensures
        name_start(s.subrange(0, i)) == i,
{
    let t = s.subrange(0, i);
    assert(t.last() == s[i - 1]);
}

/// The last path component of `path`: its last non-empty `/`-separated
/// segment. A path with none (`/`, empty, only slashes) has no file name.
pub fn file_name(path: &str) -> (r: Result<&str, PathError>)
    ensures
        last_name(path@) matches Some(name) ==> (r matches Ok(s) && s@ == name),
        last_name(path@) is None ==> (r matches Err(PathError::NoFileName { path: p }) && p@
            == path@),
{
    let n = path.unicode_len();
    let mut e: usize = n;
    proof {
        lemma_name_end_bounds(path@);
    }
    while e > 0 && path.get_char(e - 1) == '/'
        invariant
            e <= n,
            n == path@.len(),
            forall|k: int| e <= k < n ==> path@[k] == '/',
        decreases e,
    {
        e -= 1;
    }
    proof {
        lemma_name_end_prefix(path@, e as int);
        if e > 0 {
            lemma_name_end_at(path@, e as int);
        } else {
            assert(path@.subrange(0, 0) =~= Seq::<char>::empty());
        }
    }
    if e == 0 {
        return Err(PathError::NoFileName { path: path.to_owned() });
    }
    let mut b: usize = e;
    while b > 0 && path.get_char(b - 1) != '/'
        invariant
            b <= e <= n,
            n == path@.len(),
            forall|k: int| b <= k < e ==> path@[k] != '/',
        decreases b,
    {
        b -= 1;
    }
    proof {
        let t = path@.subrange(0, e as int);
        assert(forall|k: int| b <= k < t.len() ==> t[k] != '/');
        lemma_name_start_prefix(t, b as int);
        if b > 0 {
            lemma_name_start_at(t, b as int);
        } else {
            assert(t.subrange(0, 0) =~= Seq::<char>::empty());
        }
        assert(t.subrange(0, b as int) =~= path@.subrange(0, b as int));
    }
    Ok(path.substring_char(b, e))
}

/// Whether a string holds no slash.
pub open spec fn has_no_slash(s: Seq<char>) -> bool {
    forall|k: int| 0 <= k < s.len() ==> s[k] != '/'
}

/// The path of `child` inside `parent`.
pub open spec fn joined_path(parent: Seq<char>, child: Seq<char>) -> Seq<char> {
    if parent == seq!['/'] {
        seq!['/'] + child
    } else {
        parent + seq!['/'] + child
    }
}

fn contains_slash(s: &str) -> (r: bool)
    ensures
        r == !has_no_slash(s@),
{
    let n = s.unicode_len();
    let mut i: usize = 0;
    while i < n
        invariant
            i <= n,
            n == s@.len(),
            forall|k: int| 0 <= k < i ==> s@[k] != '/',
        decreases n - i,
    {
        if s.get_char(i) == '/' {
            return true;
        }
        i += 1;
    }
    false
}

/// The path of the entry `child` inside the directory `parent`. The child
/// must be a single non-empty segment without `/`.
pub fn join(parent: &str, child: &str) -> (r: Result<String, PathError>)
    ensures
        (child@.len() == 0 || !has_no_slash(child@)) ==> (r matches Err(
            PathError::InvalidChildSegment { child: c },
        ) && c@ == child@),
        (child@.len() > 0 && has_no_slash(child@)) ==> (r matches Ok(p) && p@ == joined_path(
            parent@,
            child@,
        )),
{
    proof {
        reveal_strlit("/");
    }
    if contains_slash(child) || child.is_empty() {
        return Err(PathError::InvalidChildSegment { child: child.to_owned() });
    }
    let is_root = parent.unicode_len() == 1 && parent.get_char(0) == '/';
    assert(is_root == (parent@ == seq!['/'])) by {
        if parent@.len() == 1 && parent@[0] == '/' {
            assert(parent@ =~= seq!['/']);
        }
    }
    if is_root {
        let mut s = "/".to_owned();
        s.append(child);
        return Ok(s);
    }
    let mut s = parent.to_owned();
    s.append("/");
    s.append(child);
    Ok(s)
}

/// The file name of a joined path is the child that was joined.
pub proof fn lemma_file_name_of_join(parent: Seq<char>, child: Seq<char>)
    requires
        child.len() > 0,
        has_no_slash(child),
    ensures
        last_name(joined_path(parent, child)) == Some(child),
{
    let p = joined_path(parent, child);
    let prefix = if parent == seq!['/'] {
        seq!['/']
    } else {
        parent + seq!['/']
    };
    assert(p =~= prefix + child);
    let j = prefix.len() as int;
    let n = p.len() as int;
    assert(p[n - 1] == child[child.len() - 1]);
    lemma_name_end_prefix(p, n);
    lemma_name_end_at(p, n);
    assert(p.subrange(0, n) =~= p);
    assert(name_end(p) == n);
    assert(forall|k: int| j <= k < n ==> p[k] == child[k - j]);
    assert(forall|k: int| j <= k < n ==> p[k] != '/');
    lemma_name_start_prefix(p, j);
    assert(p[j - 1] == '/');
    lemma_name_start_at(p, j);
    assert(p.subrange(j, n) =~= child);
}

} // verus!
