//! Patterns: how the words of an identifier are re-cased.
use crate::text::{
    concat, concat_range, grapheme_is_lowercase, grapheme_is_uppercase, graphemes, graphemes_of,
    is_lower, is_upper, lower_of, lowercase, upper_of, uppercase, views,
};
use vstd::prelude::*;

verus! {

/// A word with its first grapheme uppercased and the rest lowercased.
pub open spec fn capital(w: Seq<char>) -> Seq<char> {
    let g = graphemes_of(w);
    if g.len() == 0 {
        Seq::empty()
    } else {
        upper_of(g[0]) + lower_of(concat(g.drop_first()))
    }
}

/// A word with its first grapheme lowercased and the rest uppercased.
pub open spec fn toggled(w: Seq<char>) -> Seq<char> {
    let g = graphemes_of(w);
    if g.len() == 0 {
        Seq::empty()
    } else {
        lower_of(g[0]) + upper_of(concat(g.drop_first()))
    }
}

/// A grapheme has a case when it is uppercase or lowercase.
pub open spec fn is_cased(g: Seq<char>) -> bool {
    is_upper(g) || is_lower(g)
}

/// The graphemes `gs` with their cased graphemes made upper and lower case in
/// turn, beginning with uppercase when `upper` holds. Graphemes without a
/// case are kept and do not take a turn.
pub open spec fn alternate_graphemes(gs: Seq<Seq<char>>, upper: bool) -> Seq<char>
    decreases gs.len(),
{
    if gs.len() == 0 {
        Seq::empty()
    } else if is_cased(gs[0]) {
        (if upper {
            upper_of(gs[0])
        } else {
            lower_of(gs[0])
        }) + alternate_graphemes(gs.drop_first(), !upper)
    } else {
        gs[0] + alternate_graphemes(gs.drop_first(), upper)
    }
}

/// Whether the grapheme after `gs` is to be uppercase, when the first of `gs`
/// was to be uppercase exactly when `upper` holds.
pub open spec fn upper_after(gs: Seq<Seq<char>>, upper: bool) -> bool
    decreases gs.len(),
{
    if gs.len() == 0 {
        upper
    } else if is_cased(gs[0]) {
        upper_after(gs.drop_first(), !upper)
    } else {
        upper_after(gs.drop_first(), upper)
    }
}

/// The words `ws` alternated as one stream of graphemes: the turn carries on
/// from one word to the next.
pub open spec fn alternating(ws: Seq<Seq<char>>, upper: bool) -> Seq<Seq<char>>
    decreases ws.len(),
{
    if ws.len() == 0 {
        Seq::empty()
    } else {
        let g = graphemes_of(ws[0]);
        seq![alternate_graphemes(g, upper)] + alternating(ws.drop_first(), upper_after(g, upper))
    }
}

/// How the words of an identifier are re-cased.
///
/// `Lowercase` and `Uppercase` map every word; `Capital` uppercases the first
/// grapheme of each word and lowercases the rest; `Toggle` does the opposite.
/// `Camel` lowercases the first word and capitalizes the others; `Sentence`
/// capitalizes the first word and lowercases the others. `Alternating` makes
/// the cased graphemes of all the words lower and upper case in turn,
/// beginning with lowercase. `RemoveEmpty` drops the empty words, and `Noop`
/// leaves the words as they are.
#[derive(Debug, Clone, Copy, PartialEq, Eq, Hash)]
pub enum Pattern {
    Noop,
    Lowercase,
    Uppercase,
    Capital,
    Camel,
    Sentence,
    Toggle,
    Alternating,
    RemoveEmpty,
}

/// A word with its first grapheme uppercased and the rest lowercased.
pub fn capital_word(w: &str) -> (r: String)
    ensures
        r@ == capital(w@),
{
    let gs = graphemes(w);
    let n = gs.len();
    if n == 0 {
        return String::new();
    }
    let mut first = uppercase(gs[0].as_str());
    let rest = concat_range(gs.as_slice(), 1, n);
    let low = lowercase(rest.as_str());
    assert(views(gs@).drop_first() =~= views(gs@).subrange(1, n as int));
    first.append(low.as_str());
    first
}

/// A word with its first grapheme lowercased and the rest uppercased.
pub fn toggle_word(w: &str) -> (r: String)
    ensures
        r@ == toggled(w@),
{
    let gs = graphemes(w);
    let n = gs.len();
    if n == 0 {
        return String::new();
    }
    let mut first = lowercase(gs[0].as_str());
    let rest = concat_range(gs.as_slice(), 1, n);
    let up = uppercase(rest.as_str());
    assert(views(gs@).drop_first() =~= views(gs@).subrange(1, n as int));
    first.append(up.as_str());
    first
}

/// Alternates the graphemes `gs`, beginning with uppercase when `upper`
/// holds; returns the word and whether the next grapheme is to be uppercase.
fn alternate_word(gs: &[String], upper: bool) -> (r: (String, bool))
    ensures
        r.0@ == alternate_graphemes(views(gs@), upper),
        r.1 == upper_after(views(gs@), upper),
{
    let ghost v = views(gs@);
    let n = gs.len();
    let mut w = String::new();
    let mut up = upper;
    let mut j: usize = 0;
    assert(v.subrange(0, n as int) =~= v);
    while j < n
        invariant
            n == gs@.len(),
            v == views(gs@),
            j <= n,
            w@ + alternate_graphemes(v.subrange(j as int, n as int), up) == alternate_graphemes(
                v,
                upper,
            ),
            upper_after(v.subrange(j as int, n as int), up) == upper_after(v, upper),
        decreases n - j,
    {
        let ghost tail = v.subrange(j as int, n as int);
        assert(tail.drop_first() =~= v.subrange(j + 1, n as int));
        assert(tail[0] == gs@[j as int]@);
        let g = gs[j].as_str();
        let cased = grapheme_is_uppercase(g) || grapheme_is_lowercase(g);
        if cased {
            let m = if up {
                uppercase(g)
            } else {
                lowercase(g)
            };
            let ghost before = w@;
            w.append(m.as_str());
            assert(before + alternate_graphemes(tail, up) =~= w@ + alternate_graphemes(
                v.subrange(j + 1, n as int),
                !up,
            ));
            up = !up;
        } else {
            let ghost before = w@;
            w.append(g);
            assert(before + alternate_graphemes(tail, up) =~= w@ + alternate_graphemes(
                v.subrange(j + 1, n as int),
                up,
            ));
        }
        j = j + 1;
    }
    assert(w@ =~= alternate_graphemes(v, upper));
    (w, up)
}

impl Pattern {
    /// What the pattern makes of the word `w` at index `i`, for the patterns
    /// that re-case each word on its own.
    pub open spec fn spec_word(self, i: int, w: Seq<char>) -> Seq<char> {
        match self {
            Pattern::Lowercase => lower_of(w),
            Pattern::Uppercase => upper_of(w),
            Pattern::Capital => capital(w),
            Pattern::Camel => if i == 0 {
                lower_of(w)
            } else {
                capital(w)
            },
            Pattern::Sentence => if i == 0 {
                capital(w)
            } else {
                lower_of(w)
            },
            Pattern::Toggle => toggled(w),
            _ => w,
        }
    }

    /// What the pattern makes of the words `ws`.
    pub open spec fn spec_mutate(self, ws: Seq<Seq<char>>) -> Seq<Seq<char>> {
        match self {
            Pattern::Alternating => alternating(ws, false),
            Pattern::RemoveEmpty => ws.filter(|w: Seq<char>| w.len() > 0),
            _ => ws.map(|i: int, w: Seq<char>| self.spec_word(i, w)),
        }
    }

    fn mutate_word(&self, i: usize, w: &String) -> (r: String)
        ensures
            r@ == self.spec_word(i as int, w@),
    {
        match self {
            Pattern::Lowercase => lowercase(w.as_str()),
            Pattern::Uppercase => uppercase(w.as_str()),
            Pattern::Capital => capital_word(w.as_str()),
            Pattern::Camel => if i == 0 {
                lowercase(w.as_str())
            } else {
                capital_word(w.as_str())
            },
            Pattern::Sentence => if i == 0 {
                capital_word(w.as_str())
            } else {
                lowercase(w.as_str())
            },
            Pattern::Toggle => toggle_word(w.as_str()),
            _ => w.clone(),
        }
    }

    /// Re-cases the words `words`.
    pub fn mutate(&self, words: &[String]) -> (r: Vec<String>)
        ensures
            views(r@) == self.spec_mutate(views(words@)),
    {
        let ghost v = views(words@);
        let n = words.len();
        let mut r: Vec<String> = Vec::new();
        match self {
            Pattern::Alternating => {
                let mut up = false;
                let mut k: usize = 0;
                assert(v.subrange(0, n as int) =~= v);
                assert(views(r@) =~= Seq::empty());
                while k < n
                    invariant
                        n == words@.len(),
                        v == views(words@),
                        k <= n,
                        views(r@) + alternating(v.subrange(k as int, n as int), up) == alternating(
                            v,
                            false,
                        ),
                    decreases n - k,
                {
                    let ghost tail = v.subrange(k as int, n as int);
                    assert(tail.drop_first() =~= v.subrange(k + 1, n as int));
                    assert(tail[0] == words@[k as int]@);
                    let gs = graphemes(words[k].as_str());
                    let (w, next) = alternate_word(gs.as_slice(), up);
                    let ghost before = views(r@);
                    r.push(w);
                    assert(views(r@) =~= before.push(w@));
                    assert(before + alternating(tail, up) =~= views(r@) + alternating(
                        v.subrange(k + 1, n as int),
                        next,
                    ));
                    up = next;
                    k = k + 1;
                }
                assert(views(r@) =~= alternating(v, false));
            },
            Pattern::RemoveEmpty => {
                let mut k: usize = 0;
                proof {
                    reveal(Seq::filter);
                    assert(views(r@) =~= v.subrange(0, 0).filter(|w: Seq<char>| w.len() > 0));
                }
                while k < n
                    invariant
                        n == words@.len(),
                        v == views(words@),
                        k <= n,
                        views(r@) == v.subrange(0, k as int).filter(|w: Seq<char>| w.len() > 0),
                    decreases n - k,
                {
                    proof {
                        reveal(Seq::filter);
                        assert(v.subrange(0, k + 1).drop_last() =~= v.subrange(0, k as int));
                    }
                    assert(v[k as int] == words@[k as int]@);
                    let ghost before = views(r@);
                    if !words[k].as_str().is_empty() {
                        r.push(words[k].clone());
                        assert(views(r@) =~= before.push(v[k as int]));
                    }
                    k = k + 1;
                }
                assert(v.subrange(0, n as int) =~= v);
            },
            _ => {
                let mut k: usize = 0;
                while k < n
                    invariant
                        n == words@.len(),
                        v == views(words@),
                        k <= n,
                        views(r@) =~= v.subrange(0, k as int).map(
                            |i: int, w: Seq<char>| self.spec_word(i, w),
                        ),
                    decreases n - k,
                {
                    let w = self.mutate_word(k, &words[k]);
                    assert(v[k as int] == words@[k as int]@);
                    let ghost before = views(r@);
                    r.push(w);
                    assert(views(r@) =~= before.push(w@));
                    assert(v.subrange(0, k + 1).map(|i: int, w: Seq<char>| self.spec_word(i, w))
                        =~= v.subrange(0, k as int).map(
                        |i: int, w: Seq<char>| self.spec_word(i, w),
                    ).push(self.spec_word(k as int, v[k as int])));
                    k = k + 1;
                }
                assert(views(r@) =~= v.map(|i: int, w: Seq<char>| self.spec_word(i, w)));
            },
        }
        r
    }
}

} // verus!
