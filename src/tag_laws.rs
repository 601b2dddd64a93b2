//! Properties of the root-tag rewrite, proved over the spec functions that
//! the contracts of `markup` use.

use vstd::prelude::*;
use crate::markup::{
    is_space, space_run, quote_pos, assignment_len, assigns_at, replace_attr, has_attr,
    is_attr_name, height_name, width_name, full_width_attr, rewrite_tag, occurs_at, first_at,
    svg_open, root_tag_at, with_tag_rewritten,
};

verus! {

proof fn lemma_space_run_bound(z: Seq<char>)
    ensures
        space_run(z) <= z.len(),
    decreases z.len(),
{
    if z.len() > 0 {
        lemma_space_run_bound(z.drop_first());
    }
}

proof fn lemma_space_run_push(z: Seq<char>, c: char)
    requires
        !is_space(c),
    ensures
        space_run(z.push(c)) == space_run(z),
    decreases z.len(),
{
    if z.len() > 0 {
        assert(z.push(c).drop_first() =~= z.drop_first().push(c));
        lemma_space_run_push(z.drop_first(), c);
    }
}

proof fn lemma_quote_pos_bound(w: Seq<char>)
    ensures
        quote_pos(w) matches Some(k) ==> k < w.len(),
    decreases w.len(),
{
    if w.len() > 0 {
        lemma_quote_pos_bound(w.drop_first());
    }
}

proof fn lemma_quote_pos_push(w: Seq<char>, c: char)
    requires
        c != '"',
    ensures
        quote_pos(w.push(c)) == quote_pos(w),
    decreases w.len(),
{
    if w.len() > 0 {
        assert(w.push(c).drop_first() =~= w.drop_first().push(c));
        lemma_quote_pos_push(w.drop_first(), c);
    } else {
        assert(w.push(c).drop_first().len() == 0);
        assert(quote_pos(w.push(c).drop_first()) is None);
    }
}

/// An assignment, where there is one, is longer than its name and fits.
proof fn lemma_assignment_len_bound(s: Seq<char>, name: Seq<char>)
    ensures
        assignment_len(s, name) matches Some(n) ==> name.len() < n <= s.len(),
{
    if name.len() <= s.len() && s.take(name.len() as int) == name {
        let a = name.len() + space_run(s.skip(name.len() as int));
        lemma_space_run_bound(s.skip(name.len() as int));
        if a < s.len() && s[a as int] == '=' {
            let b = a + 1 + space_run(s.skip((a + 1) as int));
            lemma_space_run_bound(s.skip((a + 1) as int));
            if b < s.len() && s[b as int] == '"' {
                lemma_quote_pos_bound(s.skip((b + 1) as int));
            }
        }
    }
}

/// A character that is no letter, space, `=` or `"`.
pub open spec fn is_stop(c: char) -> bool {
    &&& !is_space(c)
    &&& c != '='
    &&& c != '"'
    &&& !('a' <= c <= 'z' || 'A' <= c <= 'Z')
}

proof fn lemma_assignment_len_push(y: Seq<char>, name: Seq<char>, c: char)
    requires
        is_attr_name(name),
        is_stop(c),
    ensures
        assignment_len(y.push(c), name) == assignment_len(y, name),
{
    let yc = y.push(c);
    let n = name.len();
    if n <= y.len() {
        assert(yc.take(n as int) =~= y.take(n as int));
        if y.take(n as int) == name {
            assert(yc.skip(n as int) =~= y.skip(n as int).push(c));
            lemma_space_run_push(y.skip(n as int), c);
            lemma_space_run_bound(y.skip(n as int));
            let a = n + space_run(y.skip(n as int));
            if a < y.len() {
                assert(yc[a as int] == y[a as int]);
                if y[a as int] == '=' {
                    assert(yc.skip((a + 1) as int) =~= y.skip((a + 1) as int).push(c));
                    lemma_space_run_push(y.skip((a + 1) as int), c);
                    lemma_space_run_bound(y.skip((a + 1) as int));
                    let b = a + 1 + space_run(y.skip((a + 1) as int));
                    if b < y.len() {
                        assert(yc[b as int] == y[b as int]);
                        if y[b as int] == '"' {
                            assert(yc.skip((b + 1) as int) =~= y.skip((b + 1) as int).push(c));
                            lemma_quote_pos_push(y.skip((b + 1) as int), c);
                        }
                    }
                }
            }
        }
    } else if n == y.len() + 1 {
        assert(yc.take(n as int)[n - 1] == c);
        assert(name[n - 1] != c);
    }
}

/// Appending a stop character commutes with the replacement.
pub proof fn lemma_replace_push(y: Seq<char>, name: Seq<char>, rep: Seq<char>, c: char)
    requires
        is_attr_name(name),
        is_stop(c),
    ensures
        replace_attr(y.push(c), name, rep) == replace_attr(y, name, rep).push(c),
    decreases y.len(),
{
    let yc = y.push(c);
    lemma_assignment_len_push(y, name, c);
    lemma_assignment_len_bound(y, name);
    lemma_assignment_len_bound(yc, name);
    if y.len() == 0 {
        assert(replace_attr(y, name, rep) == y);
        assert(replace_attr(yc.drop_first(), name, rep) == yc.drop_first());
        assert(replace_attr(yc, name, rep) =~= seq![c]);
    } else if assigns_at(y, name) {
        let n = assignment_len(y, name)->0;
        assert(yc.skip(n as int) =~= y.skip(n as int).push(c));
        lemma_replace_push(y.skip(n as int), name, rep, c);
        assert(replace_attr(yc, name, rep) =~= replace_attr(y, name, rep).push(c));
    } else {
        assert(yc.drop_first() =~= y.drop_first().push(c));
        lemma_replace_push(y.drop_first(), name, rep, c);
        assert(replace_attr(yc, name, rep) =~= replace_attr(y, name, rep).push(c));
    }
}

/// A character that starts no name is kept in front of the replacement.
pub proof fn lemma_replace_cons(c: char, x: Seq<char>, name: Seq<char>, rep: Seq<char>)
    requires
        is_attr_name(name),
        c != name[0],
    ensures
        replace_attr(seq![c] + x, name, rep) == seq![c] + replace_attr(x, name, rep),
{
    let s = seq![c] + x;
    if name.len() <= s.len() && s.take(name.len() as int) == name {
        assert(s.take(name.len() as int)[0] == c);
    }
    assert(s.drop_first() =~= x);
}

/// A character found in neither the text nor the replacement is not in the
/// result.
pub proof fn lemma_replace_lacks(y: Seq<char>, name: Seq<char>, rep: Seq<char>, c: char)
    requires
        !y.contains(c),
        !rep.contains(c),
    ensures
        !replace_attr(y, name, rep).contains(c),
    decreases y.len(),
{
    lemma_assignment_len_bound(y, name);
    if y.len() > 0 {
        let r = replace_attr(y, name, rep);
        if assigns_at(y, name) {
            let n = assignment_len(y, name)->0;
            let t = y.skip(n as int);
            assert forall|i: int| 0 <= i < t.len() implies t[i] != c by {
                assert(t[i] == y[i + n]);
            }
            lemma_replace_lacks(t, name, rep, c);
            let rt = replace_attr(t, name, rep);
            assert forall|i: int| 0 <= i < r.len() implies r[i] != c by {
                if i < rep.len() {
                    assert(r[i] == rep[i]);
                } else {
                    assert(r[i] == rt[i - rep.len()]);
                }
            }
        } else {
            let t = y.drop_first();
            assert forall|i: int| 0 <= i < t.len() implies t[i] != c by {
                assert(t[i] == y[i + 1]);
            }
            lemma_replace_lacks(t, name, rep, c);
            let rt = replace_attr(t, name, rep);
            assert(y[0] != c);
            assert forall|i: int| 0 <= i < r.len() implies r[i] != c by {
                if i > 0 {
                    assert(r[i] == rt[i - 1]);
                }
            }
        }
    }
}

/// A text without an assignment to `name` is left as it is.
pub proof fn lemma_replace_absent(x: Seq<char>, name: Seq<char>, rep: Seq<char>)
    requires
        !has_attr(x, name),
    ensures
        replace_attr(x, name, rep) == x,
    decreases x.len(),
{
    if x.len() > 0 {
        assert(x.skip(0) =~= x);
        assert(!assigns_at(x.skip(0), name));
        let t = x.drop_first();
        assert forall|i: int| 0 <= i < t.len() implies !#[trigger] assigns_at(t.skip(i), name) by {
            assert(t.skip(i) =~= x.skip(i + 1));
            assert(!assigns_at(x.skip(i + 1), name));
        }
        lemma_replace_absent(t, name, rep);
        assert(replace_attr(x, name, rep) =~= seq![x[0]] + t);
    }
}


proof fn lemma_names()
    ensures
        is_attr_name(height_name()),
        is_attr_name(width_name()),
        height_name()[0] == 'h',
        width_name()[0] == 'w',
        is_stop('>'),
        !full_width_attr().contains('>'),
        !Seq::<char>::empty().contains('>'),
{
    assert(is_attr_name(height_name()));
    assert(is_attr_name(width_name()));
    assert(full_width_attr() =~= seq!['w', 'i', 'd', 't', 'h', '=', '"', '1', '0', '0', '%', '"']);
}

/// The middle of a rewritten tag: its attributes after the rewrite.
pub open spec fn rewrite_inner(m: Seq<char>) -> Seq<char> {
    replace_attr(replace_attr(m, height_name(), seq![]), width_name(), full_width_attr())
}

proof fn lemma_replace_framed(m: Seq<char>, name: Seq<char>, rep: Seq<char>)
    requires
        is_attr_name(name),
        name[0] == 'h' || name[0] == 'w',
    ensures
        replace_attr(svg_open() + m + seq!['>'], name, rep) == svg_open() + replace_attr(
            m,
            name,
            rep,
        ) + seq!['>'],
{
    lemma_names();
    lemma_replace_push(m, name, rep, '>');
    let inner = m.push('>');
    assert(seq!['g'] + inner =~= seq!['g'] + m + seq!['>']);
    lemma_replace_cons('g', inner, name, rep);
    lemma_replace_cons('v', seq!['g'] + inner, name, rep);
    lemma_replace_cons('s', seq!['v'] + (seq!['g'] + inner), name, rep);
    lemma_replace_cons('<', seq!['s'] + (seq!['v'] + (seq!['g'] + inner)), name, rep);
    assert(svg_open() + m + seq!['>'] =~= seq!['<'] + (seq!['s'] + (seq!['v'] + (seq!['g']
        + inner))));
    assert(replace_attr(svg_open() + m + seq!['>'], name, rep) =~= svg_open() + replace_attr(
        m,
        name,
        rep,
    ) + seq!['>']);
}

/// A tag `<svg` ... `>` keeps its frame under the rewrite, and nothing the
/// rewrite puts between is a `>`.
pub proof fn lemma_rewrite_framed(m: Seq<char>)
    requires
        !m.contains('>'),
    ensures
        rewrite_tag(svg_open() + m + seq!['>']) == svg_open() + rewrite_inner(m) + seq!['>'],
        !rewrite_inner(m).contains('>'),
{
    lemma_names();
    let h = replace_attr(m, height_name(), seq![]);
    lemma_replace_framed(m, height_name(), seq![]);
    lemma_replace_framed(h, width_name(), full_width_attr());
    lemma_replace_lacks(m, height_name(), seq![], '>');
    lemma_replace_lacks(h, width_name(), full_width_attr(), '>');
}

/// Once the root tag is rewritten, the output's root tag starts where the
/// old one did and is the rewritten tag; what stands around it is kept.
pub proof fn lemma_output_root_tag(s: Seq<char>, start: int, end: int)
    requires
        root_tag_at(s, start, end),
    ensures
        ({
            let out = with_tag_rewritten(s, start, end);
            let new_end = start + rewrite_tag(s.subrange(start, end)).len();
            &&& root_tag_at(out, start, new_end)
            &&& out.subrange(start, new_end) == rewrite_tag(s.subrange(start, end))
            &&& out.take(start) == s.take(start)
            &&& out.skip(new_end) == s.skip(end)
        }),
{
    lemma_names();
    let tag = s.subrange(start, end);
    assert(occurs_at(s, svg_open(), start));
    assert(occurs_at(s, seq!['>'], end - 1));
    assert forall|k: int| start <= k < start + 4 implies s[k] != '>' by {
        assert(s[k] == s.subrange(start, start + 4)[k - start]);
    }
    if end - 1 < start + 4 {
        assert(s[end - 1] == s.subrange(end - 1, end)[0]);
    }
    let m = s.subrange(start + 4, end - 1);
    assert forall|i: int| 0 <= i < m.len() implies m[i] != '>' by {
        let j = start + 4 + i;
        assert(!occurs_at(s, seq!['>'], j));
        assert(s.subrange(j, j + 1) =~= seq![s[j]]);
    }
    assert(tag =~= svg_open() + m + seq!['>']) by {
        assert(s.subrange(start, start + 4) == svg_open());
        assert(s.subrange(end - 1, end) == seq!['>']);
    }
    lemma_rewrite_framed(m);
    let r = rewrite_inner(m);
    let out = with_tag_rewritten(s, start, end);
    let new_end = start + rewrite_tag(tag).len();
    assert(out =~= s.take(start) + (svg_open() + r + seq!['>']) + s.skip(end));
    assert(out.subrange(start, new_end) =~= rewrite_tag(tag));
    assert(out.take(start) =~= s.take(start));
    assert(out.skip(new_end) =~= s.skip(end));
    // the first `<svg` stays where it was
    assert forall|k: int| 0 <= k < start + 4 implies out[k] == s[k] by {
        if k >= start {
            assert(out[k] == svg_open()[k - start]);
            assert(s[k] == s.subrange(start, start + 4)[k - start]);
        }
    }
    assert(out.subrange(start, start + 4) =~= svg_open());
    assert forall|j: int| 0 <= j < start implies !#[trigger] occurs_at(out, svg_open(), j) by {
        assert(!occurs_at(s, svg_open(), j));
        if occurs_at(out, svg_open(), j) {
            assert(s.subrange(j, j + 4) =~= out.subrange(j, j + 4));
        }
    }
    // and the first `>` after it closes the rewritten tag
    assert(out[new_end - 1] == '>');
    assert(out.subrange(new_end - 1, new_end) =~= seq!['>']);
    assert forall|j: int| start <= j < new_end - 1 implies !#[trigger] occurs_at(
        out,
        seq!['>'],
        j,
    ) by {
        if j < start + 4 {
            assert(out[j] == svg_open()[j - start]);
        } else {
            assert(out[j] == r[j - start - 4]);
            assert(r.contains(out[j]) ==> out[j] != '>');
        }
        if occurs_at(out, seq!['>'], j) {
            assert(out.subrange(j, j + 1)[0] == out[j]);
        }
    }
}


/// An assignment to `name` laid out in `s` by position: the `=` at `a`, the
/// opening quote at `b` and the closing quote at `n - 1`.
pub open spec fn laid_out(s: Seq<char>, name: Seq<char>, a: int, b: int, n: int) -> bool {
    &&& name.len() <= a < b < n - 1
    &&& n <= s.len()
    &&& s.take(name.len() as int) == name
    &&& forall|k: int| name.len() <= k < a ==> is_space(#[trigger] s[k])
    &&& s[a] == '='
    &&& forall|k: int| a < k < b ==> is_space(#[trigger] s[k])
    &&& s[b] == '"'
    &&& forall|k: int| b < k < n - 1 ==> #[trigger] s[k] != '"'
    &&& s[n - 1] == '"'
}

proof fn lemma_space_run_exact(z: Seq<char>, k: int)
    requires
        0 <= k <= z.len(),
        forall|i: int| 0 <= i < k ==> is_space(#[trigger] z[i]),
        k == z.len() || !is_space(z[k]),
    ensures
        space_run(z) == k,
    decreases k,
{
    if k > 0 {
        let t = z.drop_first();
        assert forall|i: int| 0 <= i < k - 1 implies is_space(#[trigger] t[i]) by {
            assert(t[i] == z[i + 1]);
        }
        lemma_space_run_exact(t, k - 1);
    }
}

proof fn lemma_space_run_chars(z: Seq<char>)
    ensures
        space_run(z) <= z.len(),
        forall|i: int| 0 <= i < space_run(z) ==> is_space(#[trigger] z[i]),
        space_run(z) < z.len() ==> !is_space(z[space_run(z) as int]),
    decreases z.len(),
{
    if z.len() > 0 && is_space(z[0]) {
        let t = z.drop_first();
        lemma_space_run_chars(t);
        assert forall|i: int| 0 <= i < space_run(z) implies is_space(#[trigger] z[i]) by {
            if i > 0 {
                assert(z[i] == t[i - 1]);
            }
        }
    }
}

proof fn lemma_quote_pos_exact(w: Seq<char>, k: int)
    requires
        0 <= k < w.len(),
        w[k] == '"',
        forall|i: int| 0 <= i < k ==> #[trigger] w[i] != '"',
    ensures
        quote_pos(w) == Some(k as nat),
    decreases k,
{
    if k > 0 {
        let t = w.drop_first();
        assert forall|i: int| 0 <= i < k - 1 implies #[trigger] t[i] != '"' by {
            assert(t[i] == w[i + 1]);
        }
        lemma_quote_pos_exact(t, k - 1);
    }
}

proof fn lemma_quote_pos_chars(w: Seq<char>)
    ensures
        quote_pos(w) matches Some(k) ==> k < w.len() && w[k as int] == '"' && forall|i: int|
            0 <= i < k ==> #[trigger] w[i] != '"',
    decreases w.len(),
{
    if w.len() > 0 && w[0] != '"' {
        let t = w.drop_first();
        lemma_quote_pos_chars(t);
        if quote_pos(w) is Some {
            let k = quote_pos(w)->0;
            assert forall|i: int| 0 <= i < k implies #[trigger] w[i] != '"' by {
                if i > 0 {
                    assert(w[i] == t[i - 1]);
                }
            }
        }
    }
}

/// An assignment laid out in `s` is the one that `assignment_len` finds.
proof fn lemma_laid_out_found(s: Seq<char>, name: Seq<char>, a: int, b: int, n: int)
    requires
        laid_out(s, name, a, b, n),
    ensures
        assignment_len(s, name) == Some(n as nat),
{
    let nl = name.len() as int;
    let z1 = s.skip(nl);
    assert forall|i: int| 0 <= i < a - nl implies is_space(#[trigger] z1[i]) by {
        assert(z1[i] == s[i + nl]);
    }
    assert(z1[a - nl] == s[a]);
    lemma_space_run_exact(z1, a - nl);
    let z2 = s.skip(a + 1);
    assert forall|i: int| 0 <= i < b - a - 1 implies is_space(#[trigger] z2[i]) by {
        assert(z2[i] == s[i + a + 1]);
    }
    assert(z2[b - a - 1] == s[b]);
    lemma_space_run_exact(z2, b - a - 1);
    let w = s.skip(b + 1);
    assert forall|i: int| 0 <= i < n - b - 2 implies #[trigger] w[i] != '"' by {
        assert(w[i] == s[i + b + 1]);
    }
    assert(w[n - b - 2] == s[n - 1]);
    lemma_quote_pos_exact(w, n - b - 2);
}

/// An assignment that `assignment_len` finds is laid out in `s`.
proof fn lemma_found_laid_out(s: Seq<char>, name: Seq<char>)
    requires
        assignment_len(s, name) is Some,
    ensures
        exists|a: int, b: int|
            laid_out(s, name, a, b, assignment_len(s, name)->0 as int),
{
    let nl = name.len() as int;
    let z1 = s.skip(nl);
    lemma_space_run_chars(z1);
    let a = nl + space_run(z1);
    assert forall|k: int| nl <= k < a implies is_space(#[trigger] s[k]) by {
        assert(s[k] == z1[k - nl]);
    }
    let z2 = s.skip(a + 1);
    lemma_space_run_chars(z2);
    let b = a + 1 + space_run(z2);
    assert forall|k: int| a < k < b implies is_space(#[trigger] s[k]) by {
        assert(s[k] == z2[k - a - 1]);
    }
    let w = s.skip(b + 1);
    lemma_quote_pos_chars(w);
    let q = quote_pos(w)->0 as int;
    let n = b + q + 2;
    assert forall|k: int| b < k < n - 1 implies #[trigger] s[k] != '"' by {
        assert(s[k] == w[k - b - 1]);
    }
    assert(s[n - 1] == w[q]);
    assert(assignment_len(s, name)->0 == n);
    assert(laid_out(s, name, a, b, n));
}

/// An assignment is found at the front of `width="100%"` followed by
/// anything.
proof fn lemma_full_width_found(z: Seq<char>)
    ensures
        assignment_len(full_width_attr() + z, width_name()) == Some(12nat),
{
    let s = full_width_attr() + z;
    assert(s.take(5) =~= width_name());
    assert(s[5] == '=' && s[6] == '"' && s[11] == '"');
    assert forall|k: int| 6 < k < 11 implies #[trigger] s[k] != '"' by {
        assert(s[k] == full_width_attr()[k]);
    }
    lemma_laid_out_found(s, width_name(), 5, 6, 12);
}

/// Before its opening quote an assignment holds no `"`.
proof fn lemma_no_quote_before_value(s: Seq<char>, name: Seq<char>, a: int, b: int, n: int)
    requires
        laid_out(s, name, a, b, n),
        is_attr_name(name),
    ensures
        forall|i: int| 0 <= i < b ==> #[trigger] s[i] != '"',
{
    assert forall|i: int| 0 <= i < b implies #[trigger] s[i] != '"' by {
        if i < name.len() {
            assert(s[i] == s.take(name.len() as int)[i]);
            assert(name[i] == s[i]);
        }
    }
}

/// An assignment that `q` + `width="100%"` + `r` holds at its front, with its
/// opening quote inside `q`, stands in `q + x` too, where `x` starts with an
/// assignment to `width`.
proof fn lemma_value_into_full_width(
    q: Seq<char>,
    x: Seq<char>,
    r: Seq<char>,
    name: Seq<char>,
    a: int,
    b: int,
    len: int,
    xa: int,
    xb: int,
    n: int,
)
    requires
        is_attr_name(name),
        laid_out(q + (full_width_attr() + r), name, a, b, len),
        laid_out(x, width_name(), xa, xb, n),
        b < q.len(),
    ensures
        assignment_len(q + x, name) is Some,
{
    let full = full_width_attr();
    let z = q + (full + r);
    let qx = q + x;
    let ql = q.len() as int;
    lemma_names();
    lemma_no_quote_before_value(x, width_name(), xa, xb, n);
    assert forall|k: int| 0 <= k < ql implies qx[k] == z[k] by {}
    assert(qx.take(name.len() as int) =~= z.take(name.len() as int));
    if len - 1 < ql {
        assert(laid_out(qx, name, a, b, len));
        lemma_laid_out_found(qx, name, a, b, len);
    } else {
        let n2 = ql + xb + 1;
        assert forall|k: int| b < k < n2 - 1 implies #[trigger] qx[k] != '"' by {
            if k < ql {
                assert(z[k] != '"');
            } else {
                assert(qx[k] == x[k - ql]);
            }
        }
        assert(qx[n2 - 1] == x[xb]);
        assert(laid_out(qx, name, a, b, n2));
        lemma_laid_out_found(qx, name, a, b, n2);
    }
}

/// An assignment to `height` or `width` at the front of
/// `q` + `width="100%"` + `r` with its opening quote past `q` needs `q` empty
/// and the name `width`.
proof fn lemma_name_into_full_width(
    q: Seq<char>,
    r: Seq<char>,
    name: Seq<char>,
    a: int,
    b: int,
    len: int,
)
    requires
        name == height_name() || name == width_name(),
        laid_out(q + (full_width_attr() + r), name, a, b, len),
        q.len() <= b,
    ensures
        q.len() == 0,
        name == width_name(),
{
    let z = q + (full_width_attr() + r);
    let ql = q.len() as int;
    assert(z[ql] == 'w');
    if ql < name.len() {
        assert(z.take(name.len() as int)[ql] == z[ql]);
        assert(name[ql] == 'w');
    } else if ql < a {
        assert(is_space(z[ql]));
    } else if ql > a && ql < b {
        assert(is_space(z[ql]));
    }
}

/// Where the text before is kept, the width pass makes no assignment to
/// `height` or `width` begin that was not there.
proof fn lemma_width_pass_adds_none(q: Seq<char>, x: Seq<char>, name: Seq<char>)
    requires
        name == height_name() || name == width_name(),
        assignment_len(q + x, name) is None,
    ensures
        assignment_len(q + replace_attr(x, width_name(), full_width_attr()), name) is None,
    decreases x.len(),
{
    let w = width_name();
    let full = full_width_attr();
    lemma_names();
    lemma_assignment_len_bound(x, w);
    if x.len() == 0 {
        assert(replace_attr(x, w, full) == x);
    } else if assigns_at(x, w) {
        let n = assignment_len(x, w)->0 as int;
        let r = replace_attr(x.skip(n), w, full);
        let z = q + (full + r);
        assert(q + replace_attr(x, w, full) =~= z);
        if assignment_len(z, name) is Some {
            lemma_found_laid_out(z, name);
            let len = assignment_len(z, name)->0 as int;
            let (a, b) = choose|a: int, b: int| laid_out(z, name, a, b, len);
            lemma_found_laid_out(x, w);
            let (xa, xb) = choose|a: int, b: int| laid_out(x, w, a, b, n);
            if b < q.len() {
                lemma_value_into_full_width(q, x, r, name, a, b, len, xa, xb, n);
            } else {
                lemma_name_into_full_width(q, r, name, a, b, len);
                assert(q + x =~= x);
            }
        }
    } else {
        let x1 = x.drop_first();
        let q1 = q.push(x[0]);
        assert(q1 + x1 =~= q + x);
        lemma_width_pass_adds_none(q1, x1, name);
        assert(q + replace_attr(x, w, full) =~= q1 + replace_attr(x1, w, full));
    }
}

/// Setting widths to `100%` a second time changes nothing.
proof fn lemma_width_pass_idempotent(x: Seq<char>)
    ensures
        replace_attr(replace_attr(x, width_name(), full_width_attr()), width_name(), full_width_attr())
            == replace_attr(x, width_name(), full_width_attr()),
    decreases x.len(),
{
    let w = width_name();
    let full = full_width_attr();
    lemma_names();
    lemma_assignment_len_bound(x, w);
    if x.len() == 0 {
        assert(replace_attr(x, w, full) == x);
    } else if assigns_at(x, w) {
        let n = assignment_len(x, w)->0 as int;
        let r = replace_attr(x.skip(n), w, full);
        lemma_width_pass_idempotent(x.skip(n));
        lemma_full_width_found(r);
        assert((full + r).skip(12) =~= r);
        assert(replace_attr(full + r, w, full) =~= full + replace_attr(r, w, full));
    } else {
        let x1 = x.drop_first();
        let y1 = replace_attr(x1, w, full);
        let y = seq![x[0]] + y1;
        assert(replace_attr(x, w, full) == y);
        assert(seq![x[0]] + x1 =~= x);
        lemma_width_pass_adds_none(seq![x[0]], x1, w);
        lemma_assignment_len_bound(y, w);
        assert(y.drop_first() =~= y1);
        lemma_width_pass_idempotent(x1);
    }
}

/// No assignment to `height` starts inside `width="100%"`.
proof fn lemma_no_height_in_full_width(i: int, r: Seq<char>)
    requires
        0 < i < 12,
    ensures
        assignment_len(full_width_attr().skip(i) + r, height_name()) is None,
{
    let full = full_width_attr();
    let t = full.skip(i) + r;
    assert(full =~= seq!['w', 'i', 'd', 't', 'h', '=', '"', '1', '0', '0', '%', '"']);
    if 6 <= t.len() && t.take(6) == height_name() {
        assert(t[0] == t.take(6)[0]);
        assert(t[1] == t.take(6)[1]);
        assert(t[0] == full[i]);
        if i < 11 {
            assert(t[1] == full[i + 1]);
        }
    }
}

/// Setting widths to `100%` makes no `height` attribute where there was none.
proof fn lemma_width_pass_no_height(x: Seq<char>)
    requires
        !has_attr(x, height_name()),
    ensures
        !has_attr(replace_attr(x, width_name(), full_width_attr()), height_name()),
    decreases x.len(),
{
    let w = width_name();
    let h = height_name();
    let full = full_width_attr();
    lemma_names();
    lemma_assignment_len_bound(x, w);
    let y = replace_attr(x, w, full);
    if x.len() == 0 {
        assert(y == x);
    } else if assigns_at(x, w) {
        let n = assignment_len(x, w)->0 as int;
        let t = x.skip(n);
        let r = replace_attr(t, w, full);
        assert(y == full + r);
        assert forall|i: int| 0 <= i < t.len() implies !#[trigger] assigns_at(t.skip(i), h) by {
            assert(t.skip(i) =~= x.skip(i + n));
            assert(!assigns_at(x.skip(i + n), h));
        }
        lemma_width_pass_no_height(t);
        assert forall|i: int| 0 <= i < y.len() implies !#[trigger] assigns_at(y.skip(i), h) by {
            if i == 0 {
                assert(y.skip(0) =~= y);
                assert(y.take(6)[0] == 'w');
            } else if i < 12 {
                assert(y.skip(i) =~= full.skip(i) + r);
                lemma_no_height_in_full_width(i, r);
            } else {
                assert(y.skip(i) =~= r.skip(i - 12));
            }
        }
    } else {
        let x1 = x.drop_first();
        let y1 = replace_attr(x1, w, full);
        assert(y == seq![x[0]] + y1);
        assert forall|i: int| 0 <= i < x1.len() implies !#[trigger] assigns_at(x1.skip(i), h) by {
            assert(x1.skip(i) =~= x.skip(i + 1));
            assert(!assigns_at(x.skip(i + 1), h));
        }
        lemma_width_pass_no_height(x1);
        assert(x.skip(0) =~= x);
        assert(!assigns_at(x.skip(0), h));
        lemma_assignment_len_bound(x, h);
        assert(seq![x[0]] + x1 =~= x);
        lemma_width_pass_adds_none(seq![x[0]], x1, h);
        lemma_assignment_len_bound(y, h);
        assert forall|i: int| 0 <= i < y.len() implies !#[trigger] assigns_at(y.skip(i), h) by {
            if i == 0 {
                assert(y.skip(0) =~= y);
            } else {
                assert(y.skip(i) =~= y1.skip(i - 1));
            }
        }
    }
}

proof fn lemma_first_at_unique(s: Seq<char>, pat: Seq<char>, from: int, i: int, j: int)
    requires
        first_at(s, pat, from, i),
        first_at(s, pat, from, j),
    ensures
        i == j,
{
}

/// The root tag of a document whose root tag was rewritten: where it ends.
pub open spec fn rewritten_tag_end(s: Seq<char>, start: int, end: int) -> int {
    start + rewrite_tag(s.subrange(start, end)).len()
}

/// After the rewrite the root tag has no `width` attribute if it had none
/// before, unless removing its `height` attributes joined pieces of the tag
/// into one (`wid` `height="1"` `th="2"` becomes `width="2"`).
pub proof fn lemma_no_width_added(s: Seq<char>, start: int, end: int)
    requires
        root_tag_at(s, start, end),
        !has_attr(s.subrange(start, end), width_name()),
        !has_attr(replace_attr(s.subrange(start, end), height_name(), seq![]), width_name()),
    ensures
        ({
            let out = with_tag_rewritten(s, start, end);
            let new_end = rewritten_tag_end(s, start, end);
            &&& root_tag_at(out, start, new_end)
            &&& !has_attr(out.subrange(start, new_end), width_name())
        }),
{
    let tag = s.subrange(start, end);
    lemma_output_root_tag(s, start, end);
    lemma_replace_absent(replace_attr(tag, height_name(), seq![]), width_name(), full_width_attr());
}

/// After the rewrite the root tag holds no `height` attribute and each of
/// its `width` attributes reads `width="100%"`, so that setting widths again
/// changes nothing; the widths are those of the tag once its heights are
/// removed. This needs that removing the heights leaves none behind
/// (`heheight="1"ight="2"` leaves `height="2"`).
pub proof fn lemma_full_width_tag(s: Seq<char>, start: int, end: int)
    requires
        root_tag_at(s, start, end),
        !has_attr(replace_attr(s.subrange(start, end), height_name(), seq![]), height_name()),
    ensures
        ({
            let out = with_tag_rewritten(s, start, end);
            let new_end = rewritten_tag_end(s, start, end);
            let new_tag = out.subrange(start, new_end);
            &&& root_tag_at(out, start, new_end)
            &&& !has_attr(new_tag, height_name())
            &&& new_tag == replace_attr(
                replace_attr(s.subrange(start, end), height_name(), seq![]),
                width_name(),
                full_width_attr(),
            )
            &&& replace_attr(new_tag, width_name(), full_width_attr()) == new_tag
        }),
{
    let tag = s.subrange(start, end);
    let stripped = replace_attr(tag, height_name(), seq![]);
    lemma_output_root_tag(s, start, end);
    lemma_width_pass_no_height(stripped);
    lemma_width_pass_idempotent(stripped);
}

/// Rewriting a document whose root tag was rewritten changes nothing, as
/// long as the first rewrite left no `height` attribute in the tag (which
/// `heheight="1"ight="2"` does).
pub proof fn lemma_rewrite_twice(s: Seq<char>, start: int, end: int)
    requires
        root_tag_at(s, start, end),
        !has_attr(rewrite_tag(s.subrange(start, end)), height_name()),
    ensures
        ({
            let out = with_tag_rewritten(s, start, end);
            &&& root_tag_at(out, start, rewritten_tag_end(s, start, end))
            &&& forall|start2: int, end2: int|
                #[trigger] root_tag_at(out, start2, end2) ==> with_tag_rewritten(
                    out,
                    start2,
                    end2,
                ) == out
        }),
{
    let tag = s.subrange(start, end);
    let stripped = replace_attr(tag, height_name(), seq![]);
    let once = rewrite_tag(tag);
    let out = with_tag_rewritten(s, start, end);
    let new_end = rewritten_tag_end(s, start, end);
    lemma_output_root_tag(s, start, end);
    lemma_replace_absent(once, height_name(), seq![]);
    lemma_width_pass_idempotent(stripped);
    assert(rewrite_tag(once) == once);
    assert forall|start2: int, end2: int| #[trigger] root_tag_at(out, start2, end2) implies with_tag_rewritten(
        out,
        start2,
        end2,
    ) == out by {
        lemma_first_at_unique(out, svg_open(), 0, start, start2);
        lemma_first_at_unique(out, seq!['>'], start, new_end - 1, end2 - 1);
        assert(out.subrange(start, new_end) == once);
        assert(with_tag_rewritten(out, start, new_end) =~= out);
    }
}

} // verus!
