//! Rewriting of an SVG document's root tag: `height` attributes are removed
//! and `width` attributes are set to `100%`.

use vstd::prelude::*;

verus! {

/// The characters that `\s` matches: Unicode `White_Space`.
pub open spec fn is_space(c: char) -> bool {
    let u = c as u32;
    (0x09 <= u <= 0x0d) || u == 0x20 || u == 0x85 || u == 0xa0 || u == 0x1680
        || (0x2000 <= u <= 0x200a) || u == 0x2028 || u == 0x2029 || u == 0x202f
        || u == 0x205f || u == 0x3000
}

/// How many whitespace characters stand at the front of `s`.
pub open spec fn space_run(s: Seq<char>) -> nat
    decreases s.len(),
{
    if s.len() > 0 && is_space(s[0]) {
        1 + space_run(s.drop_first())
    } else {
        0
    }
}

/// Where the first `"` of `s` stands, if it holds one.
pub open spec fn quote_pos(s: Seq<char>) -> Option<nat>
    decreases s.len(),
{
    if s.len() == 0 {
        None
    } else if s[0] == '"' {
        Some(0)
    } else {
        match quote_pos(s.drop_first()) {
            Some(k) => Some(k + 1),
            None => None,
        }
    }
}

/// The length of an assignment `name = "value"` at the front of `s`, if one
/// stands there: whitespace is allowed around `=`, and the value runs to the
/// next `"`.
pub open spec fn assignment_len(s: Seq<char>, name: Seq<char>) -> Option<nat> {
    if name.len() <= s.len() && s.take(name.len() as int) == name {
        let a = name.len() + space_run(s.skip(name.len() as int));
        if a < s.len() && s[a as int] == '=' {
            let b = a + 1 + space_run(s.skip((a + 1) as int));
            if b < s.len() && s[b as int] == '"' {
                match quote_pos(s.skip((b + 1) as int)) {
                    Some(k) => Some(b + k + 2),
                    None => None,
                }
            } else {
                None
            }
        } else {
            None
        }
    } else {
        None
    }
}

/// Whether an assignment to `name` starts at the front of `s`.
pub open spec fn assigns_at(s: Seq<char>, name: Seq<char>) -> bool {
    match assignment_len(s, name) {
        Some(n) => 0 < n <= s.len(),
        None => false,
    }
}

/// `s` with each assignment to `name`, scanned from the left without overlap,
/// replaced by `rep`.
pub open spec fn replace_attr(s: Seq<char>, name: Seq<char>, rep: Seq<char>) -> Seq<char>
    decreases s.len(),
{
    if s.len() == 0 {
        s
    } else if assigns_at(s, name) {
        rep + replace_attr(s.skip(assignment_len(s, name)->0 as int), name, rep)
    } else {
        seq![s[0]] + replace_attr(s.drop_first(), name, rep)
    }
}

/// Whether `s` holds an assignment to `name` anywhere.
pub open spec fn has_attr(s: Seq<char>, name: Seq<char>) -> bool {
    exists|i: int| 0 <= i < s.len() && #[trigger] assigns_at(s.skip(i), name)
}

/// An attribute name that the rewriter works with: a short run of ASCII letters.
pub open spec fn is_attr_name(name: Seq<char>) -> bool {
    &&& 0 < name.len() <= 64
    &&& forall|i: int|
        0 <= i < name.len() ==> ('a' <= #[trigger] name[i] <= 'z' || 'A' <= name[i] <= 'Z')
}

/// The regular expression that matches an assignment to `name`:
/// `name\s*=\s*"[^"]*"`.
pub open spec fn attr_pattern(name: Seq<char>) -> Seq<char> {
    name + seq!['\\', 's', '*', '=', '\\', 's', '*', '"', '[', '^', '"', ']', '*', '"']
}

pub open spec fn height_name() -> Seq<char> {
    seq!['h', 'e', 'i', 'g', 'h', 't']
}

pub open spec fn width_name() -> Seq<char> {
    seq!['w', 'i', 'd', 't', 'h']
}

/// What a `width` attribute becomes: `width="100%"`.
pub open spec fn full_width_attr() -> Seq<char> {
    width_name() + seq!['=', '"', '1', '0', '0', '%', '"']
}

/// The rewritten root tag: heights removed, then widths set to `100%`.
pub open spec fn rewrite_tag(tag: Seq<char>) -> Seq<char> {
    replace_attr(replace_attr(tag, height_name(), seq![]), width_name(), full_width_attr())
}

/// Whether `pat` occurs in `s` at `i`.
pub open spec fn occurs_at(s: Seq<char>, pat: Seq<char>, i: int) -> bool {
    0 <= i && i + pat.len() <= s.len() && s.subrange(i, i + pat.len() as int) == pat
}

/// Whether `i` is the first place at or after `from` where `pat` occurs in `s`.
pub open spec fn first_at(s: Seq<char>, pat: Seq<char>, from: int, i: int) -> bool {
    &&& from <= i
    &&& occurs_at(s, pat, i)
    &&& forall|j: int| from <= j < i ==> !#[trigger] occurs_at(s, pat, j)
}

/// Whether `pat` occurs in `s` at or after `from`.
pub open spec fn occurs_from(s: Seq<char>, pat: Seq<char>, from: int) -> bool {
    exists|i: int| from <= i && #[trigger] occurs_at(s, pat, i)
}

pub open spec fn svg_open() -> Seq<char> {
    seq!['<', 's', 'v', 'g']
}

/// Whether `s[start..end]` is the root tag: it runs from the first `<svg`
/// through the first `>` after it.
pub open spec fn root_tag_at(s: Seq<char>, start: int, end: int) -> bool {
    &&& first_at(s, svg_open(), 0, start)
    &&& first_at(s, seq!['>'], start, end - 1)
}

/// `s` with its root tag `s[start..end]` rewritten.
pub open spec fn with_tag_rewritten(s: Seq<char>, start: int, end: int) -> Seq<char> {
    s.take(start) + rewrite_tag(s.subrange(start, end)) + s.skip(end)
}

/// The characters of `s`, in order.
pub(crate) fn chars_of(s: &str) -> (r: Vec<char>)
    ensures
        r@ == s@,
{
    let mut r: Vec<char> = Vec::new();
    let mut it = s.chars();
    for c in iter: it
        invariant
            r@ == iter.history@,
    {
        r.push(c);
    }
    r
}


/// Where the first `pat` at or after `from` stands in `v`.
fn find_from(v: &Vec<char>, pat: &Vec<char>, from: usize) -> (r: Option<usize>)
    requires
        from <= v@.len(),
        0 < pat@.len(),
    ensures
        match r {
            Some(i) => first_at(v@, pat@, from as int, i as int),
            None => forall|j: int| from <= j ==> !#[trigger] occurs_at(v@, pat@, j),
        },
{
    if pat.len() > v.len() {
        return None;
    }
    let last = v.len() - pat.len();
    let mut i: usize = from;
    while i <= last
        invariant
            from <= i <= v@.len(),
            0 < pat@.len() <= v@.len() <= usize::MAX,
            last == v@.len() - pat@.len(),
            forall|j: int| from <= j < i ==> !#[trigger] occurs_at(v@, pat@, j),
        decreases last + 1 - i,
    {
        let mut k: usize = 0;
        while k < pat.len()
            invariant
                i <= last,
                i + pat@.len() <= v@.len() <= usize::MAX,
                last == v@.len() - pat@.len(),
                k <= pat@.len(),
                forall|m: int| 0 <= m < k ==> v@[i + m] == pat@[m],
            ensures
                k <= pat@.len(),
                forall|m: int| 0 <= m < k ==> v@[i + m] == pat@[m],
                k < pat@.len() ==> v@[i + k] != pat@[k as int],
            decreases pat@.len() - k,
        {
            if v[i + k] != pat[k] {
                break;
            }
            k = k + 1;
        }
        if k == pat.len() {
            assert(v@.subrange(i as int, i + pat@.len()) =~= pat@);
            return Some(i);
        }
        assert(v@.subrange(i as int, i + pat@.len())[k as int] != pat@[k as int]);
        i = i + 1;
    }
    None
}

/// Why a document has no root tag to rewrite.
#[derive(Debug, Clone, Copy, PartialEq, Eq, Structural)]
pub enum MarkupError {
    /// No `<svg` occurs in the document.
    NoStart,
    /// No `>` follows the first `<svg`.
    NoEnd,
}

/// The description of a markup failure.
pub open spec fn markup_message(e: MarkupError) -> Seq<char> {
    match e {
        MarkupError::NoStart => "No SVG start found"@,
        MarkupError::NoEnd => "No SVG end found"@,
    }
}

impl MarkupError {
    /// A short description of the failure.
    pub fn message(&self) -> (r: String)
        ensures
            r@ == markup_message(*self),
    {
        match self {
            MarkupError::NoStart => String::from_str("No SVG start found"),
            MarkupError::NoEnd => String::from_str("No SVG end found"),
        }
    }
}

/// The regular expression for an assignment to `name`.
fn attr_regex(name: &str) -> (r: String)
    requires
        is_attr_name(name@),
    ensures
        r@ == attr_pattern(name@),
{
    let mut r = String::from_str(name);
    let tail = "\\s*=\\s*\"[^\"]*\"";
    proof {
        reveal_strlit("\\s*=\\s*\"[^\"]*\"");
    }
    r.append(tail);
    assert(r@ =~= attr_pattern(name@));
    r
}

/// Relies on regex::Regex::new and Regex::replace_all with regex::NoExpand:
/// a pattern `name\s*=\s*"[^"]*"` over ASCII letters compiles, and each of
/// its leftmost non-overlapping matches in `text` is replaced by `rep` as it
/// stands. Such a pattern matches at most one way at a given start, so the
/// leftmost-first matches are the assignments that `replace_attr` scans.
#[verifier::external_body]
fn regex_replace_all(pattern: &str, text: &str, rep: &str) -> (r: String)
    requires
        exists|name: Seq<char>| is_attr_name(name) && pattern@ == #[trigger] attr_pattern(name),
    ensures
        forall|name: Seq<char>|
            is_attr_name(name) && pattern@ == #[trigger] attr_pattern(name) ==> r@
                == replace_attr(text@, name, rep@),
{
    let re = regex::Regex::new(pattern).unwrap();
    re.replace_all(text, regex::NoExpand(rep)).into_owned()
}

/// `text` with each assignment to `name` replaced by `rep`.
pub fn replace_assignments(text: &str, name: &str, rep: &str) -> (r: String)
    requires
        is_attr_name(name@),
    ensures
        r@ == replace_attr(text@, name@, rep@),
{
    let pattern = attr_regex(name);
    regex_replace_all(pattern.as_str(), text, rep)
}

/// The root tag with its `height` attributes removed and its `width`
/// attributes set to `100%`.
pub fn rewrite_root_tag(tag: &str) -> (r: String)
    ensures
        r@ == rewrite_tag(tag@),
{
    let height = "height";
    let width = "width";
    let full = "width=\"100%\"";
    let empty = "";
    proof {
        reveal_strlit("height");
        reveal_strlit("width");
        reveal_strlit("width=\"100%\"");
        reveal_strlit("");
        assert(height@ =~= height_name());
        assert(width@ =~= width_name());
        assert(full@ =~= full_width_attr());
        assert(empty@ =~= Seq::<char>::empty());
    }
    let stripped = replace_assignments(tag, height, empty);
    replace_assignments(stripped.as_str(), width, full)
}

/// Rewrites the document's root tag so that the image takes the full width
/// of its container: the tag runs from the first `<svg` through the next
/// `>`; its `height` attributes are removed and its `width` attributes become
/// `width="100%"`. The rest of the document is kept as it is.
pub fn svg_size_full_width(svg_content: &str) -> (r: Result<String, MarkupError>)
    ensures
        match r {
            Ok(out) => exists|start: int, end: int|
                root_tag_at(svg_content@, start, end) && out@ == #[trigger] with_tag_rewritten(
                    svg_content@,
                    start,
                    end,
                ),
            Err(MarkupError::NoStart) => !occurs_from(svg_content@, svg_open(), 0),
            Err(MarkupError::NoEnd) => exists|start: int|
                first_at(svg_content@, svg_open(), 0, start) && !#[trigger] occurs_from(
                    svg_content@,
                    seq!['>'],
                    start,
                ),
        },
{
    let chars = chars_of(svg_content);
    let open = vec!['<', 's', 'v', 'g'];
    let close = vec!['>'];
    assert(open@ =~= svg_open());
    assert(close@ =~= seq!['>']);
    let start = match find_from(&chars, &open, 0) {
        Some(i) => i,
        None => {
            assert(!occurs_from(svg_content@, svg_open(), 0));
            return Err(MarkupError::NoStart);
        },
    };
    let last = match find_from(&chars, &close, start) {
        Some(i) => i,
        None => {
            assert(!occurs_from(svg_content@, seq!['>'], start as int));
            assert(first_at(svg_content@, svg_open(), 0, start as int));
            return Err(MarkupError::NoEnd);
        },
    };
    let n = chars.len();
    assert(occurs_at(chars@, close@, last as int));
    let end = last + 1;
    let head = svg_content.substring_char(0, start);
    let tag = svg_content.substring_char(start, end);
    let tail = svg_content.substring_char(end, n);
    let new_tag = rewrite_root_tag(tag);
    let mut out = String::from_str(head);
    out.append(new_tag.as_str());
    out.append(tail);
    assert(out@ =~= with_tag_rewritten(svg_content@, start as int, end as int));
    assert(root_tag_at(svg_content@, start as int, end as int));
    Ok(out)
}

} // verus!
