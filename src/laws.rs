//! Laws that relate splitting and joining.
use crate::boundary::{first_match, split_from, split_words, Boundary};
use crate::case::Case;
use crate::text::{concat, join_words};
use vstd::prelude::*;

verus! {

/// The single grapheme that a delimiter boundary splits on.
pub open spec fn delimiter_grapheme(b: Boundary) -> Seq<char> {
    match b {
        Boundary::Hyphen => seq!['-'],
        Boundary::Underscore => seq!['_'],
        _ => seq![' '],
    }
}

/// Whether `b` splits on one fixed grapheme and consumes it.
pub open spec fn is_single_delimiter(b: Boundary) -> bool {
    b is Hyphen || b is Underscore || b is Space
}

/// Words given as graphemes, joined with the grapheme `sep` between each two
/// of them.
pub open spec fn join_graphemes(wgs: Seq<Seq<Seq<char>>>, sep: Seq<char>) -> Seq<Seq<char>>
    decreases wgs.len(),
{
    if wgs.len() == 0 {
        Seq::empty()
    } else if wgs.len() == 1 {
        wgs[0]
    } else {
        wgs[0] + seq![sep] + join_graphemes(wgs.drop_first(), sep)
    }
}

/// The words that words given as graphemes spell.
pub open spec fn spelled(wgs: Seq<Seq<Seq<char>>>) -> Seq<Seq<char>> {
    wgs.map_values(|w: Seq<Seq<char>>| concat(w))
}

proof fn lemma_first_match_single(b: Boundary, gs: Seq<Seq<char>>, i: int)
    ensures
        first_match(seq![b], gs, i) == (if b.spec_matches(gs, i) {
            Some(b)
        } else {
            None
        }),
{
    reveal_with_fuel(first_match, 2);
    assert(seq![b][0] == b);
    assert(seq![b].drop_first() =~= Seq::<Boundary>::empty());
}

/// A scan that meets no boundary between `i` and `j` closes no word there.
proof fn lemma_scan_skips(gs: Seq<Seq<char>>, b: Boundary, i: int, j: int, last: int)
    requires
        0 <= i <= j <= gs.len(),
        forall|k: int| i <= k < j ==> !(#[trigger] b.spec_matches(gs, k)),
    ensures
        split_from(gs, seq![b], i, last) == split_from(gs, seq![b], j, last),
    decreases j - i,
{
    if i < j {
        lemma_first_match_single(b, gs, i);
        lemma_scan_skips(gs, b, i + 1, j, last);
    }
}

/// `concat` spreads over the parts of an appended sequence.
proof fn lemma_concat_append(a: Seq<Seq<char>>, b: Seq<Seq<char>>)
    ensures
        concat(a + b) == concat(a) + concat(b),
    decreases b.len(),
{
    if b.len() == 0 {
        assert(a + b =~= a);
        assert(concat(b) =~= Seq::<char>::empty());
        assert(concat(a) + concat(b) =~= concat(a));
    } else {
        assert((a + b).drop_last() =~= a + b.drop_last());
        lemma_concat_append(a, b.drop_last());
        assert(concat(a) + concat(b.drop_last()) + b.last() =~= concat(a) + (concat(b.drop_last())
            + b.last()));
    }
}

/// Scanning `gs` from `i`, where `gs[i..]` joins the words `wgs`, closes
/// exactly the words that `wgs` spell.
proof fn lemma_split_joined(
    gs: Seq<Seq<char>>,
    b: Boundary,
    wgs: Seq<Seq<Seq<char>>>,
    i: int,
)
    requires
        is_single_delimiter(b),
        wgs.len() > 0,
        0 <= i <= gs.len(),
        gs.subrange(i, gs.len() as int) == join_graphemes(wgs, delimiter_grapheme(b)),
        forall|k: int, t: int|
            0 <= k < wgs.len() && 0 <= t < wgs[k].len() ==> #[trigger] wgs[k][t]
                != delimiter_grapheme(b),
    ensures
        split_from(gs, seq![b], i, i) == spelled(wgs),
    decreases wgs.len(),
{
    let sep = delimiter_grapheme(b);
    let n = gs.len() as int;
    let w = wgs[0];
    let j = i + w.len();
    if wgs.len() == 1 {
        assert(gs.subrange(i, n) == w);
        assert forall|k: int| i <= k < n implies !(#[trigger] b.spec_matches(gs, k)) by {
            assert(gs[k] == w[k - i]);
        }
        lemma_scan_skips(gs, b, i, n, i);
        assert(spelled(wgs) =~= seq![concat(w)]);
    } else {
        let rest = wgs.drop_first();
        assert(join_graphemes(wgs, sep) == w + seq![sep] + join_graphemes(rest, sep));
        assert(j < n);
        assert forall|k: int| i <= k < j implies !(#[trigger] b.spec_matches(gs, k)) by {
            assert(gs[k] == gs.subrange(i, n)[k - i]);
            assert(gs.subrange(i, n)[k - i] == w[k - i]);
        }
        lemma_scan_skips(gs, b, i, j, i);
        assert(gs[j] == gs.subrange(i, n)[j - i]);
        assert(gs[j] == sep);
        lemma_first_match_single(b, gs, j);
        let full = gs.subrange(i, n);
        let tail = join_graphemes(rest, sep);
        assert(full == w + seq![sep] + tail);
        assert(gs.subrange(i, j) =~= full.subrange(0, w.len() as int));
        assert(full.subrange(0, w.len() as int) =~= w);
        assert(gs.subrange(j + 1, n) =~= full.subrange(w.len() as int + 1, full.len() as int));
        assert(full.subrange(w.len() as int + 1, full.len() as int) =~= tail);
        assert forall|k: int, t: int|
            0 <= k < rest.len() && 0 <= t < rest[k].len() implies #[trigger] rest[k][t] != sep by {
            assert(rest[k] == wgs[k + 1]);
        }
        lemma_split_joined(gs, b, rest, j + 1);
        assert(spelled(wgs) =~= seq![concat(w)] + spelled(rest));
    }
}

/// The characters of words joined at the grapheme level are the words
/// joined with the separator.
pub proof fn lemma_join_graphemes_spells(wgs: Seq<Seq<Seq<char>>>, sep: Seq<char>)
    ensures
        concat(join_graphemes(wgs, sep)) == join_words(spelled(wgs), sep),
    decreases wgs.len(),
{
    if wgs.len() >= 2 {
        let rest = wgs.drop_first();
        lemma_join_graphemes_spells(rest, sep);
        lemma_concat_append(wgs[0] + seq![sep], join_graphemes(rest, sep));
        lemma_concat_append(wgs[0], seq![sep]);
        assert(seq![sep].drop_last() =~= Seq::<Seq<char>>::empty());
        assert(concat(seq![sep]) == concat(Seq::<Seq<char>>::empty()) + sep);
        assert(concat(Seq::<Seq<char>>::empty()) + sep =~= sep);
        lemma_join_words_front(spelled(wgs), sep);
        assert(spelled(wgs).drop_first() =~= spelled(rest));
    } else if wgs.len() == 1 {
        assert(spelled(wgs) =~= seq![concat(wgs[0])]);
    } else {
        assert(spelled(wgs) =~= Seq::<Seq<char>>::empty());
    }
}

/// Joining takes the first word off the front.
proof fn lemma_join_words_front(ws: Seq<Seq<char>>, d: Seq<char>)
    requires
        ws.len() >= 2,
    ensures
        join_words(ws, d) == ws[0] + d + join_words(ws.drop_first(), d),
    decreases ws.len(),
{
    if ws.len() == 2 {
        assert(ws.drop_last() =~= seq![ws[0]]);
        assert(ws.drop_first() =~= seq![ws[1]]);
        assert(join_words(seq![ws[0]], d) == ws[0]);
        assert(join_words(seq![ws[1]], d) == ws[1]);
        assert(join_words(ws, d) == join_words(ws.drop_last(), d) + d + ws.last());
    } else {
        let init = ws.drop_last();
        let tail = ws.drop_first();
        lemma_join_words_front(init, d);
        assert(init.drop_first() =~= tail.drop_last());
        assert(tail.last() == ws.last());
        assert(init[0] == ws[0]);
        assert(join_words(ws, d) == join_words(init, d) + d + ws.last());
        assert(join_words(tail, d) == join_words(tail.drop_last(), d) + d + tail.last());
        assert(ws[0] + d + (join_words(init.drop_first(), d) + d + ws.last()) =~= ws[0] + d
            + join_words(init.drop_first(), d) + d + ws.last());
    }
}

/// Splitting at a single-grapheme delimiter undoes joining with it: words in
/// which that grapheme does not occur, joined with it and split at it, come
/// back as they were. The one exception is a single empty word, which joins
/// to nothing, and nothing splits into no words.
pub proof fn split_undoes_join(b: Boundary, wgs: Seq<Seq<Seq<char>>>)
    requires
        is_single_delimiter(b),
        join_graphemes(wgs, delimiter_grapheme(b)).len() > 0,
        forall|k: int, t: int|
            0 <= k < wgs.len() && 0 <= t < wgs[k].len() ==> #[trigger] wgs[k][t]
                != delimiter_grapheme(b),
    ensures
        split_words(join_graphemes(wgs, delimiter_grapheme(b)), seq![b]) == spelled(wgs),
        concat(join_graphemes(wgs, delimiter_grapheme(b))) == join_words(
            spelled(wgs),
            delimiter_grapheme(b),
        ),
{
    let gs = join_graphemes(wgs, delimiter_grapheme(b));
    assert(gs.subrange(0, gs.len() as int) =~= gs);
    lemma_split_joined(gs, b, wgs, 0);
    lemma_join_graphemes_spells(wgs, delimiter_grapheme(b));
}

/// A case that splits at one delimiter reads back what it writes: words in
/// which its delimiter does not occur, joined with that delimiter, split at
/// the case's boundaries into the same words, empty words included, and the
/// joined graphemes spell the words joined with the delimiter. This holds of
/// `Snake`, `Kebab`, `Lower` and the other cases with a delimiter; the one
/// exception is a single empty word, which joins to nothing.
pub proof fn delimited_case_reads_back(c: Case, wgs: Seq<Seq<Seq<char>>>)
    requires
        c.spec_boundaries().len() == 1,
        is_single_delimiter(c.spec_boundaries()[0]),
        join_graphemes(wgs, c.spec_delim()).len() > 0,
        forall|k: int, t: int|
            0 <= k < wgs.len() && 0 <= t < wgs[k].len() ==> #[trigger] wgs[k][t] != c.spec_delim(),
    ensures
        split_words(join_graphemes(wgs, c.spec_delim()), c.spec_boundaries()) == spelled(wgs),
        concat(join_graphemes(wgs, c.spec_delim())) == join_words(spelled(wgs), c.spec_delim()),
{
    let b = c.spec_boundaries()[0];
    assert(c.spec_boundaries() =~= seq![b]);
    assert(delimiter_grapheme(b) == c.spec_delim());
    split_undoes_join(b, wgs);
}

} // verus!
