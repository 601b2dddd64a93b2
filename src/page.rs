//! From a URL path segment to the page name and the asset file it names.

use vstd::prelude::*;

verus! {

/// What `str::to_lowercase` returns for `s`.
pub uninterp spec fn lower_of(s: Seq<char>) -> Seq<char>;

/// Relies on str::to_lowercase: the result depends on the characters alone.
#[verifier::external_body]
fn lowercase(s: &str) -> (r: String)
    ensures
        r@ == lower_of(s@),
{
    s.to_lowercase()
}

/// `s` with each `:` turned into the path separator `/`.
pub open spec fn colons_to_slashes(s: Seq<char>) -> Seq<char> {
    Seq::new(s.len(), |i: int| if s[i] == ':' { '/' } else { s[i] })
}

/// The page name of a URL path segment: lower case, with `:` as `/`.
pub open spec fn page_name_of(segment: Seq<char>) -> Seq<char> {
    colons_to_slashes(lower_of(segment))
}

pub open spec fn svg_suffix() -> Seq<char> {
    seq!['.', 's', 'v', 'g']
}

/// Turns each `:` of an already lower-cased segment into `/`, so that
/// `icons:arrow` names `icons/arrow`.
pub fn slashes_for_colons(lower: &str) -> (r: String)
    ensures
        r@ == colons_to_slashes(lower@),
        forall|i: int| 0 <= i < r@.len() ==> r@[i] != ':',
{
    let chars = crate::markup::chars_of(lower);
    let n = chars.len();
    let slash = "/";
    proof {
        reveal_strlit("/");
    }
    assert(slash@ =~= seq!['/']);
    let mut r = String::new();
    let mut seg_start: usize = 0;
    let mut i: usize = 0;
    while i < n
        invariant
            chars@ == lower@,
            slash@ == seq!['/'],
            n == lower@.len(),
            seg_start <= i <= n,
            r@ == colons_to_slashes(lower@).take(seg_start as int),
            forall|j: int| seg_start <= j < i ==> lower@[j] != ':',
        decreases n - i,
    {
        if chars[i] == ':' {
            let piece = lower.substring_char(seg_start, i);
            let ghost before = r@;
            r.append(piece);
            r.append(slash);
            assert(r@ == before + piece@ + seq!['/']);
            assert(before.len() == seg_start);
            assert forall|k: int| 0 <= k < i + 1 implies r@[k] == colons_to_slashes(lower@)[k] by {
                if k < seg_start {
                    assert(r@[k] == before[k]);
                } else if k < i {
                    assert(r@[k] == piece@[k - seg_start]);
                } else {
                    assert(lower@[k] == ':');
                }
            }
            assert(r@ =~= colons_to_slashes(lower@).take(i + 1));
            seg_start = i + 1;
        }
        i = i + 1;
    }
    let piece = lower.substring_char(seg_start, n);
    let ghost before = r@;
    r.append(piece);
    assert(before.len() == seg_start);
    assert forall|k: int| 0 <= k < n implies r@[k] == colons_to_slashes(lower@)[k] by {
        if k < seg_start {
            assert(r@[k] == before[k]);
        } else {
            assert(r@[k] == piece@[k - seg_start]);
        }
    }
    assert(r@ =~= colons_to_slashes(lower@));
    r
}

/// The page name of a URL path segment: the segment in lower case, with each
/// `:` as `/`. It holds no `:`.
pub fn page_name(segment: &str) -> (r: String)
    ensures
        r@ == page_name_of(segment@),
        forall|i: int| 0 <= i < r@.len() ==> r@[i] != ':',
{
    let lower = lowercase(segment);
    slashes_for_colons(lower.as_str())
}

/// The asset file of a page, relative to the asset root: `<page>.svg`.
pub fn asset_file_name(page: &str) -> (r: String)
    ensures
        r@ == page@ + svg_suffix(),
{
    let mut r = String::from_str(page);
    let suffix = ".svg";
    proof {
        reveal_strlit(".svg");
    }
    r.append(suffix);
    assert(r@ =~= page@ + svg_suffix());
    r
}

} // verus!
