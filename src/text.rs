//! Strings as sequences of grapheme clusters, and the Unicode services the
//! library takes from outside: grapheme segmentation and case mapping.
use unicode_segmentation::UnicodeSegmentation;
use vstd::prelude::*;

verus! {

/// The characters of `parts`, one part after another.
pub open spec fn concat(parts: Seq<Seq<char>>) -> Seq<char>
    decreases parts.len(),
{
    if parts.len() == 0 {
        Seq::empty()
    } else {
        concat(parts.drop_last()) + parts.last()
    }
}

/// The character sequences of a list of strings.
pub open spec fn views(v: Seq<String>) -> Seq<Seq<char>> {
    v.map_values(|s: String| s@)
}

/// The extended grapheme clusters of a string, as Unicode segments it.
pub uninterp spec fn graphemes_of(s: Seq<char>) -> Seq<Seq<char>>;

/// The full Unicode lowercase mapping of a string.
pub uninterp spec fn lower_of(s: Seq<char>) -> Seq<char>;

/// The full Unicode uppercase mapping of a string.
pub uninterp spec fn upper_of(s: Seq<char>) -> Seq<char>;

/// Relies on `UnicodeSegmentation::graphemes(s, true)` of unicode_segmentation:
/// the extended grapheme clusters of `s`, in order. Each is a non-empty slice
/// and the slices follow one another, so together they spell `s`.
#[verifier::external_body]
pub(crate) fn graphemes(s: &str) -> (r: Vec<String>)
    ensures
        views(r@) == graphemes_of(s@),
        concat(views(r@)) == s@,
        forall|i: int| 0 <= i < r@.len() ==> (#[trigger] r@[i])@.len() > 0,
{
    s.graphemes(true).map(String::from).collect()
}

/// Relies on `str::to_lowercase`: the lowercase mapping of `s`, which depends
/// on its characters alone.
#[verifier::external_body]
pub(crate) fn lowercase(s: &str) -> (r: String)
    ensures
        r@ == lower_of(s@),
{
    s.to_lowercase()
}

/// Relies on `str::to_uppercase`: the uppercase mapping of `s`, which depends
/// on its characters alone.
#[verifier::external_body]
pub(crate) fn uppercase(s: &str) -> (r: String)
    ensures
        r@ == upper_of(s@),
{
    s.to_uppercase()
}

/// Relies on `str::chars`: the characters of `s`, in order.
#[verifier::external_body]
pub(crate) fn chars_of(s: &str) -> (r: Vec<char>)
    ensures
        r@ == s@,
{
    s.chars().collect()
}

/// A grapheme is uppercase when case mapping changes something in it and it
/// is its own uppercase form.
pub open spec fn is_upper(g: Seq<char>) -> bool {
    upper_of(g) != lower_of(g) && g == upper_of(g)
}

/// A grapheme is lowercase when case mapping changes something in it and it
/// is its own lowercase form.
pub open spec fn is_lower(g: Seq<char>) -> bool {
    upper_of(g) != lower_of(g) && g == lower_of(g)
}

/// A grapheme is a digit when all of its characters are ASCII digits.
pub open spec fn is_digit(g: Seq<char>) -> bool {
    forall|i: int| 0 <= i < g.len() ==> '0' <= #[trigger] g[i] <= '9'
}

pub fn grapheme_is_uppercase(g: &str) -> (r: bool)
    ensures
        r == is_upper(g@),
{
    let u = uppercase(g);
    let l = lowercase(g);
    let same = g.to_owned();
    !(u == l) && same == u
}

pub fn grapheme_is_lowercase(g: &str) -> (r: bool)
    ensures
        r == is_lower(g@),
{
    let u = uppercase(g);
    let l = lowercase(g);
    let same = g.to_owned();
    !(u == l) && same == l
}

pub fn grapheme_is_digit(g: &str) -> (r: bool)
    ensures
        r == is_digit(g@),
{
    let cs = chars_of(g);
    let mut i: usize = 0;
    while i < cs.len()
        invariant
            cs@ == g@,
            i <= cs.len(),
            forall|j: int| 0 <= j < i ==> '0' <= #[trigger] cs@[j] <= '9',
        decreases cs.len() - i,
    {
        let c = cs[i];
        if !('0' <= c && c <= '9') {
            return false;
        }
        i = i + 1;
    }
    true
}

} // verus!

verus! {

/// Concatenates `parts[from..to]` into one string.
pub fn concat_range(parts: &[String], from: usize, to: usize) -> (r: String)
    requires
        from <= to <= parts@.len(),
    ensures
        r@ == concat(views(parts@).subrange(from as int, to as int)),
{
    let mut r = String::new();
    let mut k: usize = from;
    while k < to
        invariant
            from <= k <= to <= parts@.len(),
            r@ == concat(views(parts@).subrange(from as int, k as int)),
        decreases to - k,
    {
        proof {
            let next = views(parts@).subrange(from as int, k + 1);
            assert(next.drop_last() =~= views(parts@).subrange(from as int, k as int));
        }
        r.append(parts[k].as_str());
        k = k + 1;
    }
    r
}

} // verus!

verus! {

/// The words `ws` with `d` between each two of them.
pub open spec fn join_words(ws: Seq<Seq<char>>, d: Seq<char>) -> Seq<char>
    decreases ws.len(),
{
    if ws.len() == 0 {
        Seq::empty()
    } else if ws.len() == 1 {
        ws[0]
    } else {
        join_words(ws.drop_last(), d) + d + ws.last()
    }
}

/// Joins `words` with `delim` between each two of them.
pub fn join_with(words: &[String], delim: &str) -> (r: String)
    ensures
        r@ == join_words(views(words@), delim@),
{
    let ghost v = views(words@);
    let mut r = String::new();
    let mut k: usize = 0;
    assert(v.subrange(0, 0) =~= Seq::<Seq<char>>::empty());
    while k < words.len()
        invariant
            k <= words@.len(),
            v == views(words@),
            r@ == join_words(v.subrange(0, k as int), delim@),
        decreases words.len() - k,
    {
        assert(v.subrange(0, k + 1).drop_last() =~= v.subrange(0, k as int));
        assert(v[k as int] == words@[k as int]@);
        if k > 0 {
            r.append(delim);
        }
        r.append(words[k].as_str());
        proof {
            if k == 0 {
                assert(r@ =~= v.subrange(0, 1)[0]);
            }
        }
        k = k + 1;
    }
    assert(v.subrange(0, k as int) =~= v);
    r
}

} // verus!
