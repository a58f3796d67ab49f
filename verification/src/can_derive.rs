//! The rules of the `Broadcast` and `Collector` derives: which field attributes are accepted,
//! the error each wrong combination gets, and the placeholder substitution in the code
//! templates that the attributes carry.
use vstd::prelude::*;

verus! {

/// `s` with every occurrence of `from` replaced by `to`, scanning left to right without
/// overlaps, as `str::replace` does for a non-empty pattern.
pub open spec fn replaced(s: Seq<char>, from: Seq<char>, to: Seq<char>) -> Seq<char>
    decreases s.len(),
{
    if from.len() == 0 || s.len() == 0 {
        s
    } else if from.len() <= s.len() && s.take(from.len() as int) == from {
        to + replaced(s.skip(from.len() as int), from, to)
    } else {
        seq![s[0]] + replaced(s.skip(1), from, to)
    }
}

fn occurs_at(s: &str, n: usize, i: usize, from: &str, m: usize) -> (r: bool)
    requires
        n == s@.len(),
        m == from@.len(),
        i <= n,
    ensures
        r == (i + m <= n && s@.subrange(i as int, i + m) == from@),
{
    if m > n - i {
        return false;
    }
    let mut j: usize = 0;
    while j < m
        invariant
            n == s@.len(),
            m == from@.len(),
            i + m <= n,
            j <= m,
            forall|t: int| 0 <= t < j ==> s@[i + t] == from@[t],
        decreases m - j,
    {
        if s.get_char(i + j) != from.get_char(j) {
            assert(s@.subrange(i as int, i + m)[j as int] != from@[j as int]);
            return false;
        }
        j += 1;
    }
    assert(s@.subrange(i as int, i + m) =~= from@);
    true
}

/// `s` with every occurrence of the non-empty `from` replaced by `to`.
pub fn replace_all(s: &str, from: &str, to: &str) -> (r: String)
    requires
        from@.len() > 0,
    ensures
        r@ == replaced(s@, from@, to@),
{
    let n = s.unicode_len();
    let m = from.unicode_len();
    let mut out = String::new();
    let mut i: usize = 0;
    assert(s@.skip(0) =~= s@);
    assert(out@ + replaced(s@, from@, to@) =~= replaced(s@, from@, to@));
    while i < n
        invariant
            n == s@.len(),
            m == from@.len(),
            m > 0,
            i <= n,
            out@ + replaced(s@.skip(i as int), from@, to@) == replaced(s@, from@, to@),
        decreases n - i,
    {
        let ghost rest = s@.skip(i as int);
        let ghost before = out@;
        if occurs_at(s, n, i, from, m) {
            assert(rest.take(m as int) =~= s@.subrange(i as int, i + m));
            assert(rest.skip(m as int) =~= s@.skip(i + m));
            out.append(to);
            assert(out@ + replaced(s@.skip(i + m), from@, to@) =~= before + replaced(
                rest,
                from@,
                to@,
            ));
            i = i + m;
        } else {
            assert(!(m <= rest.len() && rest.take(m as int) == from@)) by {
                if m <= rest.len() {
                    assert(rest.take(m as int) =~= s@.subrange(i as int, i + m));
                }
            }
            let c = s.substring_char(i, i + 1);
            assert(c@ =~= seq![rest[0]]);
            assert(rest.skip(1) =~= s@.skip(i + 1));
            out.append(c);
            assert(out@ + replaced(s@.skip(i + 1), from@, to@) =~= before + replaced(
                rest,
                from@,
                to@,
            ));
            i = i + 1;
        }
    }
    assert(s@.skip(n as int) =~= Seq::<char>::empty());
    assert(out@ + Seq::<char>::empty() =~= out@);
    out
}

proof fn lemma_replaced_untouched(q: Seq<char>, from: Seq<char>, to: Seq<char>)
    requires
        from.len() > 0,
        forall|k: int| 0 <= k < q.len() ==> #[trigger] q[k] != from[0],
    ensures
        replaced(q, from, to) == q,
    decreases q.len(),
{
    if q.len() > 0 {
        if from.len() <= q.len() {
            assert(q.take(from.len() as int)[0] == q[0]);
        }
        let t = q.skip(1);
        assert forall|k: int| 0 <= k < t.len() implies #[trigger] t[k] != from[0] by {
            assert(t[k] == q[k + 1]);
        }
        lemma_replaced_untouched(t, from, to);
        assert(seq![q[0]] + t =~= q);
    }
}

proof fn lemma_replaced_prefix(p: Seq<char>, e: Seq<char>, from: Seq<char>, to: Seq<char>)
    requires
        from.len() > 0,
        forall|k: int| 0 <= k < p.len() ==> #[trigger] p[k] != from[0],
    ensures
        replaced(p + e, from, to) == p + replaced(e, from, to),
    decreases p.len(),
{
    if p.len() > 0 {
        let s = p + e;
        if from.len() <= s.len() {
            assert(s.take(from.len() as int)[0] == p[0]);
        }
        let t = p.skip(1);
        assert forall|k: int| 0 <= k < t.len() implies #[trigger] t[k] != from[0] by {
            assert(t[k] == p[k + 1]);
        }
        lemma_replaced_prefix(t, e, from, to);
        assert(s.skip(1) =~= t + e);
        assert(seq![p[0]] + t =~= p);
        assert(seq![s[0]] + (t + replaced(e, from, to)) =~= p + replaced(e, from, to));
    } else {
        assert(p + e =~= e);
    }
}

proof fn lemma_replaced_suffix(e: Seq<char>, q: Seq<char>, from: Seq<char>, to: Seq<char>)
    requires
        from.len() > 0,
        forall|k: int, j: int| 0 <= k < q.len() && 0 <= j < from.len() ==> #[trigger] q[k]
            != #[trigger] from[j],
    ensures
        replaced(e + q, from, to) == replaced(e, from, to) + q,
    decreases e.len(),
{
    let s = e + q;
    let m = from.len() as int;
    if e.len() == 0 {
        assert(s =~= q);
        assert forall|k: int| 0 <= k < q.len() implies #[trigger] q[k] != from[0] by {
            assert(q[k] != from[0]);
        }
        lemma_replaced_untouched(q, from, to);
        assert(replaced(e, from, to) + q =~= q);
    } else {
        if m <= e.len() {
            assert(s.take(m) =~= e.take(m));
            if e.take(m) == from {
                lemma_replaced_suffix(e.skip(m), q, from, to);
                assert(s.skip(m) =~= e.skip(m) + q);
                assert(to + (replaced(e.skip(m), from, to) + q) =~= (to + replaced(
                    e.skip(m),
                    from,
                    to,
                )) + q);
            } else {
                lemma_replaced_suffix(e.skip(1), q, from, to);
                assert(s.skip(1) =~= e.skip(1) + q);
                assert(seq![s[0]] + (replaced(e.skip(1), from, to) + q) =~= (seq![e[0]]
                    + replaced(e.skip(1), from, to)) + q);
            }
        } else {
            if m <= s.len() {
                assert(s.take(m)[e.len() as int] == q[0]);
                assert(q[0] != from[e.len() as int]);
                assert(s.take(m) != from);
            }
            lemma_replaced_suffix(e.skip(1), q, from, to);
            assert(s.skip(1) =~= e.skip(1) + q);
            assert(seq![s[0]] + (replaced(e.skip(1), from, to) + q) =~= (seq![e[0]] + replaced(
                e.skip(1),
                from,
                to,
            )) + q);
        }
    }
}

/// The `#value` placeholder of derive templates.
pub open spec fn value_placeholder() -> Seq<char> {
    seq!['#', 'v', 'a', 'l', 'u', 'e']
}

/// The `#field` placeholder of collector update templates.
pub open spec fn field_placeholder() -> Seq<char> {
    seq!['#', 'f', 'i', 'e', 'l', 'd']
}

/// The name that generated code binds a matched value to.
pub open spec fn value_binding() -> Seq<char> {
    seq!['_', '_', 'v', 'a', 'l', 'u', 'e']
}

/// A derive template with `#value` replaced by the generated binding.
pub fn substitute_value(template: &str) -> (r: String)
    ensures
        r@ == replaced(template@, value_placeholder(), value_binding()),
{
    proof {
        reveal_strlit("#value");
        reveal_strlit("__value");
    }
    assert("#value"@ =~= value_placeholder());
    assert("__value"@ =~= value_binding());
    replace_all(template, "#value", "__value")
}

/// The update code of a collector field: `#field` replaced by `self.<field_name>`, then
/// `#value` by the generated binding.
pub fn collector_update_code(update_expr: &str, field_name: &str) -> (r: String)
    ensures
        r@ == replaced(
            replaced(update_expr@, field_placeholder(), seq!['s', 'e', 'l', 'f', '.'] + field_name@),
            value_placeholder(),
            value_binding(),
        ),
{
    proof {
        reveal_strlit("#field");
        reveal_strlit("self.");
    }
    assert("#field"@ =~= field_placeholder());
    let mut target = "self.".to_owned();
    target.append(field_name);
    assert(target@ =~= seq!['s', 'e', 'l', 'f', '.'] + field_name@);
    let with_field = replace_all(update_expr, "#field", target.as_str());
    substitute_value(with_field.as_str())
}

/// The attributes of one field of a `Broadcast` derive, as far as the rules look at them.
pub struct BroadcastFieldAttrs {
    pub name: String,
    pub flatten: bool,
    pub map: Option<String>,
    pub filter_map: Option<String>,
    pub has_min_freq_hz: bool,
    pub has_max_freq_hz: bool,
}

/// How a broadcast task maps a field's value to a message.
pub enum BroadcastClosure {
    /// The map expression (placeholder substituted), whose result is wrapped in `Some`.
    Mapped(String),
    /// The filter-map expression (placeholder substituted), used as it is.
    FilterMapped(String),
}

/// What the `Broadcast` derive does with one field.
pub enum BroadcastFieldPlan {
    /// Delegate to the field's own `Broadcast` impl.
    Flatten,
    /// Spawn a broadcast task with the given closure.
    Task(BroadcastClosure),
    /// The field carries no broadcast attribute.
    Skip,
    /// The attributes are inconsistent.
    Error(String),
}

/// The fully qualified path of `Option::Some` that a map closure wraps its expression in.
pub open spec fn qualified_some() -> Seq<char> {
    "::core::option::Option::Some"@
}

/// The body of a broadcast closure: a map expression wrapped in `Some`, a filter-map
/// expression as it is.
pub open spec fn closure_body(c: BroadcastClosure) -> Seq<char> {
    match c {
        BroadcastClosure::Mapped(e) => qualified_some() + "("@ + e@ + ")"@,
        BroadcastClosure::FilterMapped(e) => e@,
    }
}

/// The body of the closure that a broadcast task maps each value with.
pub fn closure_body_text(c: &BroadcastClosure) -> (r: String)
    ensures
        r@ == closure_body(*c),
{
    match c {
        BroadcastClosure::Mapped(e) => {
            let mut s = "::core::option::Option::Some(".to_owned();
            s.append(e.as_str());
            s.append(")");
            proof {
                reveal_strlit("::core::option::Option::Some(");
                reveal_strlit("::core::option::Option::Some");
                reveal_strlit("(");
            }
            assert("::core::option::Option::Some("@ =~= qualified_some() + "("@);
            s
        },
        BroadcastClosure::FilterMapped(e) => e.clone(),
    }
}

/// `map = "E"` and `filter_map = "Some(E)"` give the same closure: the placeholder
/// substitution leaves the `Some( .. )` around `E` alone, so both bodies are `Some` applied to
/// `E` with `#value` replaced (once by its full path, once by its prelude name).
///
/// `mapped` is the substituted map expression and `filter_mapped` the substituted filter-map
/// expression, as `broadcast_field_plan` gives them for `map = e` and `filter_map = Some(e)`.
pub proof fn lemma_map_is_filter_map_of_some(e: Seq<char>, mapped: String, filter_mapped: String)
    requires
        mapped@ == replaced(e, value_placeholder(), value_binding()),
        filter_mapped@ == replaced("Some("@ + e + ")"@, value_placeholder(), value_binding()),
    ensures
        closure_body(BroadcastClosure::Mapped(mapped)) == qualified_some() + "("@ + replaced(
            e,
            value_placeholder(),
            value_binding(),
        ) + ")"@,
        closure_body(BroadcastClosure::FilterMapped(filter_mapped)) == "Some("@ + replaced(
            e,
            value_placeholder(),
            value_binding(),
        ) + ")"@,
{
    reveal_strlit("Some(");
    reveal_strlit(")");
    let from = value_placeholder();
    let to = value_binding();
    let p = "Some("@;
    let q = ")"@;
    assert forall|k: int| 0 <= k < p.len() implies #[trigger] p[k] != from[0] by {}
    assert forall|k: int, j: int| 0 <= k < q.len() && 0 <= j < from.len() implies #[trigger] q[k]
        != #[trigger] from[j] by {}
    lemma_replaced_suffix(e, q, from, to);
    lemma_replaced_prefix(p, e + q, from, to);
    assert(p + e + q =~= p + (e + q));
    assert(p + (replaced(e, from, to) + q) =~= p + replaced(e, from, to) + q);
}

/// The error message of a field that is flattened and also carries other attributes.
pub open spec fn flatten_conflict_message(name: Seq<char>) -> Seq<char> {
    "field `"@ + name
        + "` has #[broadcast(flatten)] and must not have map, filter_map, min_freq_hz, or max_freq_hz"@
}

/// The error message of a field with only one of the two frequencies.
pub open spec fn missing_freq_message(name: Seq<char>) -> Seq<char> {
    "field `"@ + name + "` has min_freq_hz or max_freq_hz but not both"@
}

/// The error message of a field with both map and filter_map.
pub open spec fn both_maps_message(name: Seq<char>) -> Seq<char> {
    "field `"@ + name + "` has both map and filter_map — use only one"@
}

/// The error message of a field with frequencies but neither map nor filter_map.
pub open spec fn no_map_message(name: Seq<char>) -> Seq<char> {
    "field `"@ + name + "` has min_freq_hz/max_freq_hz but no map or filter_map"@
}

fn field_message(name: &str, tail: &str) -> (r: String)
    ensures
        r@ == "field `"@ + name@ + tail@,
{
    let mut s = "field `".to_owned();
    s.append(name);
    s.append(tail);
    s
}

/// The plan for one field of a `Broadcast` derive:
/// a flattened field must carry nothing else; otherwise a field with neither frequency is
/// skipped, one with a single frequency is an error, and one with both needs exactly one of
/// map and filter_map.
pub fn broadcast_field_plan(f: &BroadcastFieldAttrs) -> (r: BroadcastFieldPlan)
    ensures
        f.flatten ==> (if f.map is Some || f.filter_map is Some || f.has_min_freq_hz
            || f.has_max_freq_hz {
            r matches BroadcastFieldPlan::Error(m) && m@ == flatten_conflict_message(f.name@)
        } else {
            r is Flatten
        }),
        !f.flatten && !(f.has_min_freq_hz && f.has_max_freq_hz) ==> (if f.has_min_freq_hz
            || f.has_max_freq_hz {
            r matches BroadcastFieldPlan::Error(m) && m@ == missing_freq_message(f.name@)
        } else {
            r is Skip
        }),
        !f.flatten && f.has_min_freq_hz && f.has_max_freq_hz ==> (match (f.map, f.filter_map) {
            (Some(_), Some(_)) => r matches BroadcastFieldPlan::Error(m) && m@ == both_maps_message(
                f.name@,
            ),
            (Some(e), None) => r matches BroadcastFieldPlan::Task(BroadcastClosure::Mapped(c)) && c@
                == replaced(e@, value_placeholder(), value_binding()),
            (None, Some(e)) => r matches BroadcastFieldPlan::Task(BroadcastClosure::FilterMapped(c))
                && c@ == replaced(e@, value_placeholder(), value_binding()),
            (None, None) => r matches BroadcastFieldPlan::Error(m) && m@ == no_map_message(
                f.name@,
            ),
        }),
{
    let name = f.name.as_str();
    if f.flatten {
        if f.map.is_some() || f.filter_map.is_some() || f.has_min_freq_hz || f.has_max_freq_hz {
            return BroadcastFieldPlan::Error(
                field_message(
                    name,
                    "` has #[broadcast(flatten)] and must not have map, filter_map, min_freq_hz, or max_freq_hz",
                ),
            );
        }
        return BroadcastFieldPlan::Flatten;
    }
    if !(f.has_min_freq_hz && f.has_max_freq_hz) {
        if f.has_min_freq_hz || f.has_max_freq_hz {
            return BroadcastFieldPlan::Error(
                field_message(name, "` has min_freq_hz or max_freq_hz but not both"),
            );
        }
        return BroadcastFieldPlan::Skip;
    }
    match (&f.map, &f.filter_map) {
        (Some(_), Some(_)) => BroadcastFieldPlan::Error(
            field_message(name, "` has both map and filter_map — use only one"),
        ),
        (Some(e), None) => BroadcastFieldPlan::Task(
            BroadcastClosure::Mapped(substitute_value(e.as_str())),
        ),
        (None, Some(e)) => BroadcastFieldPlan::Task(
            BroadcastClosure::FilterMapped(substitute_value(e.as_str())),
        ),
        (None, None) => BroadcastFieldPlan::Error(
            field_message(name, "` has min_freq_hz/max_freq_hz but no map or filter_map"),
        ),
    }
}

/// Whether a `Broadcast` derive has no field to broadcast: no field is flattened or gets a
/// task. (Field errors are reported before this is looked at.)
pub fn broadcast_fields_missing(plans: &[BroadcastFieldPlan]) -> (r: bool)
    ensures
        r == forall|i: int|
            0 <= i < plans@.len() ==> !(#[trigger] plans@[i] is Flatten || plans@[i] is Task),
{
    let mut i: usize = 0;
    while i < plans.len()
        invariant
            i <= plans@.len(),
            forall|j: int| 0 <= j < i ==> !(#[trigger] plans@[j] is Flatten || plans@[j] is Task),
        decreases plans@.len() - i,
    {
        match &plans[i] {
            BroadcastFieldPlan::Flatten => return false,
            BroadcastFieldPlan::Task(_) => return false,
            _ => {},
        }
        i += 1;
    }
    true
}

/// The error of a `Broadcast` derive whose struct has no broadcast field.
pub fn no_broadcast_fields_message() -> (r: &'static str)
    ensures
        r@ == "at least one field must have a #[broadcast(...)] or #[broadcast(flatten)] attribute"@,
{
    "at least one field must have a #[broadcast(...)] or #[broadcast(flatten)] attribute"
}

/// The attributes of one field of a `Collector` derive, as far as the rules look at them.
pub struct CollectorFieldAttrs {
    pub name: String,
    pub flatten: bool,
    pub pattern: Option<String>,
}

/// The error of a `Collector` derive without any collecting field.
pub open spec fn no_collectors_message() -> Seq<char> {
    "at least one field must have a #[collector(pattern = ...)] or #[collector(flatten)] attribute"@
}

/// The error of a flattened collector field that also has a pattern.
pub open spec fn flatten_pattern_message(name: Seq<char>) -> Seq<char> {
    "field `"@ + name
        + "` has #[collector(flatten)] and must not also have a #[collector(pattern = ...)]"@
}

/// The error of a `Collector` derive with pattern fields but no update expression.
pub open spec fn missing_update_expr_message() -> Seq<char> {
    "struct has fields with #[collector(pattern = ...)] but is missing `update_expr` in #[collector(...)]"@
}

/// Whether a field collects directly: it has a pattern and is not flattened.
pub open spec fn is_direct(f: CollectorFieldAttrs) -> bool {
    !f.flatten && f.pattern is Some
}

/// The errors of a field list, in field order: each flattened field that has a pattern.
pub open spec fn flatten_pattern_errors(fields: Seq<CollectorFieldAttrs>) -> Seq<Seq<char>>
    decreases fields.len(),
{
    if fields.len() == 0 {
        Seq::empty()
    } else {
        let prev = flatten_pattern_errors(fields.drop_last());
        let f = fields.last();
        if f.flatten && f.pattern is Some {
            prev.push(flatten_pattern_message(f.name@))
        } else {
            prev
        }
    }
}

/// The errors a `Collector` derive reports for its fields and whether an update expression
/// was given: without any direct or flattened field, only that error; otherwise the
/// flatten/pattern conflicts, then a missing update expression when a field collects
/// directly. An empty list means the derive goes ahead.
pub open spec fn collector_errors(fields: Seq<CollectorFieldAttrs>, has_update_expr: bool) -> Seq<
    Seq<char>,
> {
    let has_direct = exists|i: int| 0 <= i < fields.len() && is_direct(#[trigger] fields[i]);
    let has_flatten = exists|i: int| 0 <= i < fields.len() && (#[trigger] fields[i]).flatten;
    if !has_direct && !has_flatten {
        seq![no_collectors_message()]
    } else if has_direct && !has_update_expr {
        flatten_pattern_errors(fields).push(missing_update_expr_message())
    } else {
        flatten_pattern_errors(fields)
    }
}

/// The errors of a `Collector` derive, in the order it reports them.
pub fn collector_validation(fields: &[CollectorFieldAttrs], has_update_expr: bool) -> (r: Vec<
    String,
>)
    ensures
        r@.map_values(|s: String| s@) == collector_errors(fields@, has_update_expr),
{
    let n = fields.len();
    let mut has_direct = false;
    let mut has_flatten = false;
    let mut i: usize = 0;
    while i < n
        invariant
            n == fields@.len(),
            i <= n,
            has_direct == exists|k: int| 0 <= k < i && is_direct(#[trigger] fields@[k]),
            has_flatten == exists|k: int| 0 <= k < i && (#[trigger] fields@[k]).flatten,
        decreases n - i,
    {
        let f = &fields[i];
        if !f.flatten && f.pattern.is_some() {
            has_direct = true;
        }
        if f.flatten {
            has_flatten = true;
        }
        i += 1;
    }
    let mut errors: Vec<String> = Vec::new();
    if !has_direct && !has_flatten {
        errors.push(
            "at least one field must have a #[collector(pattern = ...)] or #[collector(flatten)] attribute".to_owned(),
        );
        assert(errors@.map_values(|s: String| s@) =~= seq![no_collectors_message()]);
        return errors;
    }
    let mut j: usize = 0;
    assert(fields@.take(0) =~= Seq::<CollectorFieldAttrs>::empty());
    assert(errors@.map_values(|s: String| s@) =~= Seq::<Seq<char>>::empty());
    while j < n
        invariant
            n == fields@.len(),
            j <= n,
            errors@.map_values(|s: String| s@) == flatten_pattern_errors(fields@.take(j as int)),
        decreases n - j,
    {
        let ghost before = errors@.map_values(|s: String| s@);
        let f = &fields[j];
        assert(fields@.take(j + 1).drop_last() =~= fields@.take(j as int));
        if f.flatten && f.pattern.is_some() {
            let m = field_message(
                f.name.as_str(),
                "` has #[collector(flatten)] and must not also have a #[collector(pattern = ...)]",
            );
            errors.push(m);
            assert(errors@.map_values(|s: String| s@) =~= before.push(m@));
        }
        j += 1;
    }
    assert(fields@.take(n as int) =~= fields@);
    if has_direct && !has_update_expr {
        let ghost before = errors@.map_values(|s: String| s@);
        let m = "struct has fields with #[collector(pattern = ...)] but is missing `update_expr` in #[collector(...)]".to_owned();
        errors.push(m);
        assert(errors@.map_values(|s: String| s@) =~= before.push(m@));
    }
    errors
}

} // verus!
