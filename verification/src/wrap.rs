//! Greedy line breaking.

use vstd::prelude::*;
use crate::font::FontMetrics;
use crate::layout::{
    exceeds, lemma_width_superadditive, line_exceeds, line_width, no_negative_kerning, text_width,
};
use crate::words::{join_words, joined, lemma_words_of_appended, word_views, words_of, SEPARATOR};

verus! {

/// The breaker's state between two words: the lines that are final, and the
/// one line that may still grow.
pub struct Breaking {
    pub committed: Seq<Seq<Seq<char>>>,
    pub tentative: Seq<Seq<char>>,
}

/// A line as a range of the words it was broken from: the words from `start`
/// up to, not including, `end`.
#[derive(Clone, Copy, Debug, PartialEq, Eq, Structural)]
pub struct Line {
    pub start: usize,
    pub end: usize,
}

/// Whether the words, joined into one line, are wider than `max_width`
/// millionths of a pixel at `scale` millionths of a pixel.
pub open spec fn overflows(m: FontMetrics, scale: int, max_width: int, words: Seq<Seq<char>>) -> bool {
    exceeds(line_width(m, joined(words)), m.height(), scale, max_width)
}

/// The state after one more word. The word joins the tentative line. If the
/// line is then too wide and held a word before, the line is committed
/// without the new word, which starts the next line; a word too wide by
/// itself stays whole on a line of its own.
pub open spec fn break_step(
    m: FontMetrics,
    scale: int,
    max_width: int,
    state: Breaking,
    word: Seq<char>,
) -> Breaking {
    let candidate = state.tentative.push(word);
    if overflows(m, scale, max_width, candidate) && state.tentative.len() > 0 {
        Breaking { committed: state.committed.push(state.tentative), tentative: seq![word] }
    } else {
        Breaking { committed: state.committed, tentative: candidate }
    }
}

/// The state after all of `words`.
pub open spec fn breaking(
    m: FontMetrics,
    scale: int,
    max_width: int,
    words: Seq<Seq<char>>,
) -> Breaking
    decreases words.len(),
{
    if words.len() == 0 {
        Breaking { committed: Seq::empty(), tentative: Seq::empty() }
    } else {
        break_step(m, scale, max_width, breaking(m, scale, max_width, words.drop_last()), words.last())
    }
}

/// The lines that `words` break into: the committed ones, and what is left
/// in the tentative line at the end, be it empty.
pub open spec fn broken_lines(
    m: FontMetrics,
    scale: int,
    max_width: int,
    words: Seq<Seq<char>>,
) -> Seq<Seq<Seq<char>>> {
    let state = breaking(m, scale, max_width, words);
    state.committed.push(state.tentative)
}

/// The words that each of `lines` holds.
pub open spec fn line_slices(words: Seq<Seq<char>>, lines: Seq<Line>) -> Seq<Seq<Seq<char>>> {
    Seq::new(lines.len(), |k: int| words.subrange(lines[k].start as int, lines[k].end as int))
}

/// Whether `lines` cut `count` words into consecutive ranges, none left out.
pub open spec fn partitions(lines: Seq<Line>, count: int) -> bool {
    &&& lines.len() > 0
    &&& lines[0].start == 0
    &&& lines.last().end == count
    &&& forall|k: int|
        0 <= k < lines.len() ==> (#[trigger] lines[k]).start <= lines[k].end <= count
    &&& forall|j: int, k: int|
        0 <= j && j + 1 == k && k < lines.len() ==> (#[trigger] lines[j]).end == (
        #[trigger] lines[k]).start
}

/// The words of all lines, one after another.
pub open spec fn all_line_words(lines: Seq<Seq<Seq<char>>>) -> Seq<Seq<char>>
    decreases lines.len(),
{
    if lines.len() == 0 {
        Seq::empty()
    } else {
        all_line_words(lines.drop_last()) + lines.last()
    }
}

/// No line is wider than the maximum, but for a line of exactly one word.
pub proof fn lemma_width_bound(m: FontMetrics, scale: int, max_width: int, words: Seq<Seq<char>>)
    requires
        m.wf(),
        0 <= scale,
        0 <= max_width,
    ensures
        forall|k: int|
            0 <= k < broken_lines(m, scale, max_width, words).len() ==> {
                let line = #[trigger] broken_lines(m, scale, max_width, words)[k];
                line.len() == 1 || !overflows(m, scale, max_width, line)
            },
{
    lemma_breaking_bound(m, scale, max_width, words);
    let state = breaking(m, scale, max_width, words);
    let lines = broken_lines(m, scale, max_width, words);
    assert forall|k: int| 0 <= k < lines.len() implies ({
        let line = #[trigger] lines[k];
        line.len() == 1 || !overflows(m, scale, max_width, line)
    }) by {
        if k < state.committed.len() {
            assert(lines[k] == state.committed[k]);
        } else if state.tentative.len() == 0 {
            assert(joined(state.tentative) =~= Seq::<char>::empty());
            assert(line_width(m, joined(state.tentative)) == 0);
            assert(max_width * m.height() >= 0) by (nonlinear_arith)
                requires
                    max_width >= 0,
                    m.height() > 0,
            ;
        }
    }
}

proof fn lemma_breaking_bound(m: FontMetrics, scale: int, max_width: int, words: Seq<Seq<char>>)
    ensures
        ({
            let state = breaking(m, scale, max_width, words);
            &&& forall|k: int|
                0 <= k < state.committed.len() ==> {
                    let line = #[trigger] state.committed[k];
                    line.len() == 1 || !overflows(m, scale, max_width, line)
                }
            &&& state.tentative.len() <= 1 || !overflows(m, scale, max_width, state.tentative)
            &&& words.len() > 0 ==> state.tentative.len() > 0
        }),
    decreases words.len(),
{
    if words.len() > 0 {
        lemma_breaking_bound(m, scale, max_width, words.drop_last());
    }
}

/// Every line but the last holds a word, and the last does unless there are
/// no words at all.
pub proof fn lemma_lines_hold_words(
    m: FontMetrics,
    scale: int,
    max_width: int,
    words: Seq<Seq<char>>,
)
    ensures
        forall|k: int|
            0 <= k < broken_lines(m, scale, max_width, words).len() - 1 ==> (
            #[trigger] broken_lines(m, scale, max_width, words)[k]).len() > 0,
        words.len() > 0 ==> broken_lines(m, scale, max_width, words).last().len() > 0,
        words.len() == 0 ==> broken_lines(m, scale, max_width, words) == seq![
            Seq::<Seq<char>>::empty(),
        ],
    decreases words.len(),
{
    lemma_committed_hold_words(m, scale, max_width, words);
    if words.len() == 0 {
        assert(broken_lines(m, scale, max_width, words) =~= seq![Seq::<Seq<char>>::empty()]);
    }
}

proof fn lemma_committed_hold_words(
    m: FontMetrics,
    scale: int,
    max_width: int,
    words: Seq<Seq<char>>,
)
    ensures
        ({
            let state = breaking(m, scale, max_width, words);
            &&& forall|k: int|
                0 <= k < state.committed.len() ==> (#[trigger] state.committed[k]).len() > 0
            &&& words.len() > 0 ==> state.tentative.len() > 0
        }),
    decreases words.len(),
{
    if words.len() > 0 {
        lemma_committed_hold_words(m, scale, max_width, words.drop_last());
        let before = breaking(m, scale, max_width, words.drop_last());
        let state = breaking(m, scale, max_width, words);
        assert forall|k: int| 0 <= k < state.committed.len() implies (
        #[trigger] state.committed[k]).len() > 0 by {
            if k < before.committed.len() {
                assert(state.committed[k] == before.committed[k]);
            }
        }
    }
}

/// The lines hold the words in their order, none lost and none added.
pub proof fn lemma_lines_keep_words(
    m: FontMetrics,
    scale: int,
    max_width: int,
    words: Seq<Seq<char>>,
)
    ensures
        all_line_words(broken_lines(m, scale, max_width, words)) == words,
    decreases words.len(),
{
    let state = breaking(m, scale, max_width, words);
    let lines = broken_lines(m, scale, max_width, words);
    assert(lines.drop_last() =~= state.committed);
    if words.len() == 0 {
        assert(all_line_words(state.committed) + state.tentative =~= words);
    } else {
        let init = words.drop_last();
        let before = breaking(m, scale, max_width, init);
        lemma_lines_keep_words(m, scale, max_width, init);
        assert(broken_lines(m, scale, max_width, init).drop_last() =~= before.committed);
        assert(all_line_words(before.committed) + before.tentative == init);
        if overflows(m, scale, max_width, before.tentative.push(words.last()))
            && before.tentative.len() > 0 {
            assert(state.committed.drop_last() =~= before.committed);
            assert(init + seq![words.last()] =~= words);
        } else {
            assert(all_line_words(before.committed) + before.tentative.push(words.last())
                =~= init.push(words.last()));
            assert(init.push(words.last()) =~= words);
        }
    }
}

/// More words never make fewer lines: the lines committed for the first
/// words stay as they are when words follow.
pub proof fn lemma_line_count_monotonic(
    m: FontMetrics,
    scale: int,
    max_width: int,
    words: Seq<Seq<char>>,
    more: Seq<Seq<char>>,
)
    ensures
        broken_lines(m, scale, max_width, words + more).len() >= broken_lines(
            m,
            scale,
            max_width,
            words,
        ).len(),
        breaking(m, scale, max_width, words).committed.is_prefix_of(
            breaking(m, scale, max_width, words + more).committed,
        ),
    decreases more.len(),
{
    if more.len() == 0 {
        assert(words + more =~= words);
    } else {
        lemma_line_count_monotonic(m, scale, max_width, words, more.drop_last());
        assert((words + more).drop_last() =~= words + more.drop_last());
    }
}

/// A text never breaks into fewer lines when further text is appended to it
/// after a separator.
pub proof fn lemma_longer_text_more_lines(
    m: FontMetrics,
    scale: int,
    max_width: int,
    text: Seq<char>,
    more: Seq<char>,
)
    ensures
        broken_lines(m, scale, max_width, words_of(text + seq![SEPARATOR] + more)).len()
            >= broken_lines(m, scale, max_width, words_of(text)).len(),
{
    lemma_words_of_appended(text, more);
    lemma_line_count_monotonic(m, scale, max_width, words_of(text), words_of(more));
}

/// Where no kerning is negative, a line is at least as wide as any of its
/// words.
pub proof fn lemma_line_covers_word(m: FontMetrics, words: Seq<Seq<char>>, i: int)
    requires
        no_negative_kerning(m),
        0 <= i < words.len(),
    ensures
        line_width(m, joined(words)) >= line_width(m, words[i]),
    decreases words.len(),
{
    if words.len() > 1 {
        let init = words.drop_last();
        let head = joined(init) + seq![SEPARATOR];
        lemma_width_superadditive(m, head, words.last());
        lemma_width_superadditive(m, joined(init), seq![SEPARATOR]);
        if i < words.len() - 1 {
            lemma_line_covers_word(m, init, i);
        }
    }
}

/// Where no kerning is negative, a word that is too wide by itself is the
/// only word of its line.
pub proof fn lemma_oversized_word_alone(
    m: FontMetrics,
    scale: int,
    max_width: int,
    words: Seq<Seq<char>>,
)
    requires
        m.wf(),
        no_negative_kerning(m),
        0 <= scale,
        0 <= max_width,
    ensures
        forall|k: int, i: int|
            #![trigger broken_lines(m, scale, max_width, words)[k][i]]
            0 <= k < broken_lines(m, scale, max_width, words).len() && 0 <= i < broken_lines(
                m,
                scale,
                max_width,
                words,
            )[k].len() && overflows(
                m,
                scale,
                max_width,
                seq![broken_lines(m, scale, max_width, words)[k][i]],
            ) ==> broken_lines(m, scale, max_width, words)[k].len() == 1,
{
    let lines = broken_lines(m, scale, max_width, words);
    lemma_width_bound(m, scale, max_width, words);
    assert forall|k: int, i: int|
        #![trigger lines[k][i]]
        0 <= k < lines.len() && 0 <= i < lines[k].len() && overflows(
            m,
            scale,
            max_width,
            seq![lines[k][i]],
        ) implies lines[k].len() == 1 by {
        let line = lines[k];
        let word = line[i];
        lemma_line_covers_word(m, line, i);
        let whole = line_width(m, joined(line));
        let part = line_width(m, word);
        assert(joined(seq![word]) == word);
        assert(whole * scale >= part * scale) by (nonlinear_arith)
            requires
                whole >= part,
                scale >= 0,
        ;
    }
}

/// Lines that cut the same words into the same slices are the same ranges.
pub proof fn lemma_partition_unique(words: Seq<Seq<char>>, a: Seq<Line>, b: Seq<Line>)
    requires
        partitions(a, words.len() as int),
        partitions(b, words.len() as int),
        line_slices(words, a) == line_slices(words, b),
    ensures
        a == b,
{
    assert(a.len() == line_slices(words, a).len());
    assert(b.len() == line_slices(words, b).len());
    assert forall|k: int| 0 <= k < a.len() implies a[k] == b[k] by {
        lemma_same_range(words, a, b, k);
    }
    assert(a =~= b);
}

proof fn lemma_same_range(words: Seq<Seq<char>>, a: Seq<Line>, b: Seq<Line>, k: int)
    requires
        partitions(a, words.len() as int),
        partitions(b, words.len() as int),
        line_slices(words, a) == line_slices(words, b),
        0 <= k < a.len(),
        a.len() == b.len(),
    ensures
        a[k] == b[k],
    decreases k,
{
    if k > 0 {
        lemma_same_range(words, a, b, k - 1);
        assert(a[k - 1].end == a[k].start);
        assert(b[k - 1].end == b[k].start);
    }
    assert(line_slices(words, a)[k].len() == a[k].end - a[k].start);
    assert(line_slices(words, b)[k].len() == b[k].end - b[k].start);
}

/// Breaks words into lines, greedily: each line takes as many words as fit.
pub fn break_lines(words: &Vec<Vec<char>>, metrics: &FontMetrics, scale: u128, max_width: u64) -> (lines:
    Vec<Line>)
    requires
        metrics.wf(),
    ensures
        partitions(lines@, words@.len() as int),
        line_slices(word_views(words@), lines@) == broken_lines(
            *metrics,
            scale as int,
            max_width as int,
            word_views(words@),
        ),
{
    let ghost views = word_views(words@);
    let height = metrics.units_per_height();
    let mut lines: Vec<Line> = Vec::new();
    let mut start: usize = 0;
    let mut i: usize = 0;
    proof {
        assert(views.take(0) =~= Seq::<Seq<char>>::empty());
        assert(line_slices(views, lines@) =~= Seq::<Seq<Seq<char>>>::empty());
        assert(views.subrange(0, 0) =~= Seq::<Seq<char>>::empty());
    }
    while i < words.len()
        invariant
            start <= i <= words@.len(),
            views == word_views(words@),
            metrics.wf(),
            height == metrics.height(),
            0 < height <= 0xffff,
            line_slices(views, lines@) == breaking(
                *metrics,
                scale as int,
                max_width as int,
                views.take(i as int),
            ).committed,
            views.subrange(start as int, i as int) == breaking(
                *metrics,
                scale as int,
                max_width as int,
                views.take(i as int),
            ).tentative,
            lines@.len() == 0 ==> start == 0,
            lines@.len() > 0 ==> lines@[0].start == 0 && lines@.last().end == start,
            forall|k: int|
                0 <= k < lines@.len() ==> (#[trigger] lines@[k]).start <= lines@[k].end <= i,
            forall|j: int, k: int|
                0 <= j && j + 1 == k && k < lines@.len() ==> (#[trigger] lines@[j]).end == (
                #[trigger] lines@[k]).start,
        decreases words.len() - i,
    {
        let text = join_words(words, start, i + 1);
        let width = text_width(metrics, &text);
        let too_wide = line_exceeds(width, height, scale, max_width);
        proof {
            assert(views.take(i + 1).drop_last() =~= views.take(i as int));
            assert(views.take(i + 1).last() == views[i as int]);
            assert(views.subrange(start as int, i as int).push(views[i as int])
                =~= views.subrange(start as int, i + 1));
        }
        if too_wide && i > start {
            let ghost before = lines@;
            lines.push(Line { start, end: i });
            proof {
                assert(line_slices(views, lines@) =~= line_slices(views, before).push(
                    views.subrange(start as int, i as int),
                ));
                assert(seq![views[i as int]] =~= views.subrange(i as int, i + 1));
            }
            start = i;
        }
        i += 1;
    }
    let ghost before = lines@;
    lines.push(Line { start, end: words.len() });
    proof {
        assert(views.take(words.len() as int) =~= views);
        assert(line_slices(views, lines@) =~= line_slices(views, before).push(
            views.subrange(start as int, words.len() as int),
        ));
    }
    lines
}

} // verus!
