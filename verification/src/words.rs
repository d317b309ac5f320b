//! Splitting text into words and joining words into lines.

use vstd::prelude::*;

verus! {

/// The character that separates words.
pub const SEPARATOR: char = ' ';

/// The words found so far while a text is read from the left: those that
/// have ended, and the one that is still open. An open word without a
/// character is no word.
pub struct Scan {
    pub done: Seq<Seq<char>>,
    pub open: Seq<char>,
}

impl Scan {
    /// The words of the text read so far, the open one closed.
    pub open spec fn words(self) -> Seq<Seq<char>> {
        if self.open.len() > 0 {
            self.done.push(self.open)
        } else {
            self.done
        }
    }
}

/// The scan after one more character: a separator ends the open word, any
/// other character extends it.
pub open spec fn scan_step(scan: Scan, c: char) -> Scan {
    if c == SEPARATOR {
        Scan { done: scan.words(), open: Seq::empty() }
    } else {
        Scan { done: scan.done, open: scan.open.push(c) }
    }
}

/// The scan at the end of `text`.
pub open spec fn scanned(text: Seq<char>) -> Scan
    decreases text.len(),
{
    if text.len() == 0 {
        Scan { done: Seq::empty(), open: Seq::empty() }
    } else {
        scan_step(scanned(text.drop_last()), text.last())
    }
}

/// The words of `text`: its maximal runs of characters other than the
/// separator, in order. Separators at either end or in a row yield no empty
/// word.
pub open spec fn words_of(text: Seq<char>) -> Seq<Seq<char>> {
    scanned(text).words()
}

/// Whether `word` can be a word: it has a character and no separator.
pub open spec fn is_word(word: Seq<char>) -> bool {
    &&& word.len() > 0
    &&& forall|i: int| 0 <= i < word.len() ==> word[i] != SEPARATOR
}

/// Whether each of `words` can be a word.
pub open spec fn all_words(words: Seq<Seq<char>>) -> bool {
    forall|i: int| 0 <= i < words.len() ==> is_word(#[trigger] words[i])
}

/// The words joined into a line, one separator between neighbours.
pub open spec fn joined(words: Seq<Seq<char>>) -> Seq<char>
    decreases words.len(),
{
    if words.len() == 0 {
        Seq::empty()
    } else if words.len() == 1 {
        words[0]
    } else {
        joined(words.drop_last()) + seq![SEPARATOR] + words.last()
    }
}

/// The character sequences that a vector of words holds.
pub open spec fn word_views(words: Seq<Vec<char>>) -> Seq<Seq<char>> {
    Seq::new(words.len(), |i: int| words[i]@)
}

/// The characters of a string.
pub fn chars_of(text: &str) -> (chars: Vec<char>)
    ensures
        chars@ == text@,
{
    let mut chars: Vec<char> = Vec::new();
    for c in it: text.chars()
        invariant
            it.seq() == text@,
            chars@ == it.seq().take(it.index() as int),
    {
        chars.push(c);
    }
    chars
}

/// Splits text into its words.
pub fn split_words(text: &str) -> (words: Vec<Vec<char>>)
    ensures
        word_views(words@) == words_of(text@),
        all_words(word_views(words@)),
{
    proof {
        lemma_words_are_words(text@);
    }
    let chars = chars_of(text);
    let mut done: Vec<Vec<char>> = Vec::new();
    let mut open: Vec<char> = Vec::new();
    let mut i: usize = 0;
    assert(chars@.take(0) =~= Seq::<char>::empty());
    assert(word_views(done@) =~= Seq::<Seq<char>>::empty());
    while i < chars.len()
        invariant
            i <= chars.len(),
            word_views(done@) == scanned(chars@.take(i as int)).done,
            open@ == scanned(chars@.take(i as int)).open,
        decreases chars.len() - i,
    {
        let c = chars[i];
        proof {
            assert(chars@.take(i + 1).drop_last() =~= chars@.take(i as int));
            assert(chars@.take(i + 1).last() == c);
        }
        if c == SEPARATOR {
            if open.len() > 0 {
                let ghost before = done@;
                let ghost closed = open@;
                done.push(open);
                open = Vec::new();
                assert(word_views(done@) =~= word_views(before).push(closed));
            }
        } else {
            open.push(c);
        }
        i += 1;
    }
    assert(chars@.take(chars.len() as int) =~= chars@);
    if open.len() > 0 {
        let ghost before = done@;
        let ghost closed = open@;
        done.push(open);
        assert(word_views(done@) =~= word_views(before).push(closed));
    }
    done
}

/// Joins the words from `start` up to `end` into a line.
pub fn join_words(words: &Vec<Vec<char>>, start: usize, end: usize) -> (line: Vec<char>)
    requires
        start <= end <= words@.len(),
    ensures
        line@ == joined(word_views(words@).subrange(start as int, end as int)),
{
    let ghost views = word_views(words@);
    let mut line: Vec<char> = Vec::new();
    let mut k: usize = start;
    assert(views.subrange(start as int, start as int) =~= Seq::<Seq<char>>::empty());
    while k < end
        invariant
            start <= k <= end <= words@.len(),
            views == word_views(words@),
            line@ == joined(views.subrange(start as int, k as int)),
        decreases end - k,
    {
        let ghost before = line@;
        if k > start {
            line.push(SEPARATOR);
        }
        let ghost base = line@;
        let word = &words[k];
        let mut j: usize = 0;
        while j < word.len()
            invariant
                j <= word.len(),
                line@ == base + word@.take(j as int),
            decreases word.len() - j,
        {
            line.push(word[j]);
            assert(word@.take(j + 1) =~= word@.take(j as int).push(word@[j as int]));
            j += 1;
        }
        proof {
            assert(word@.take(word.len() as int) =~= word@);
            let next = views.subrange(start as int, k + 1);
            assert(next.drop_last() =~= views.subrange(start as int, k as int));
            assert(next.last() == word@);
            if k > start {
                assert(base =~= before + seq![SEPARATOR]);
            } else {
                assert(line@ =~= word@);
            }
        }
        k += 1;
    }
    line
}

/// The scan of a text that follows another whose scan left no word open:
/// the words of the first, then the scan of the second.
pub proof fn lemma_scan_append(a: Seq<char>, b: Seq<char>)
    requires
        scanned(a).open.len() == 0,
    ensures
        scanned(a + b).done == scanned(a).done + scanned(b).done,
        scanned(a + b).open == scanned(b).open,
    decreases b.len(),
{
    if b.len() == 0 {
        assert(a + b =~= a);
        assert(scanned(a).done + scanned(b).done =~= scanned(a).done);
    } else {
        lemma_scan_append(a, b.drop_last());
        assert((a + b).drop_last() =~= a + b.drop_last());
        assert((a + b).last() == b.last());
        let before = scanned(b.drop_last());
        if b.last() == SEPARATOR && before.open.len() > 0 {
            assert((scanned(a).done + before.done).push(before.open) =~= scanned(a).done
                + before.done.push(before.open));
        }
    }
}

/// Every word of a text has a character and holds no separator.
pub proof fn lemma_words_are_words(text: Seq<char>)
    ensures
        all_words(words_of(text)),
        all_words(scanned(text).done),
        forall|i: int| 0 <= i < scanned(text).open.len() ==> scanned(text).open[i] != SEPARATOR,
    decreases text.len(),
{
    if text.len() > 0 {
        lemma_words_are_words(text.drop_last());
    }
}

/// A text that can be a word is its own single word.
pub proof fn lemma_words_of_word(word: Seq<char>)
    requires
        forall|i: int| 0 <= i < word.len() ==> word[i] != SEPARATOR,
    ensures
        scanned(word).done == Seq::<Seq<char>>::empty(),
        scanned(word).open == word,
        is_word(word) ==> words_of(word) == seq![word],
    decreases word.len(),
{
    if word.len() > 0 {
        lemma_words_of_word(word.drop_last());
        assert(word.drop_last().push(word.last()) =~= word);
    }
    assert(Seq::<Seq<char>>::empty().push(word) =~= seq![word]);
}

/// The words of two texts set apart by a separator are the words of the
/// first and then those of the second.
pub proof fn lemma_words_of_appended(a: Seq<char>, b: Seq<char>)
    ensures
        words_of(a + seq![SEPARATOR] + b) == words_of(a) + words_of(b),
{
    let head = a + seq![SEPARATOR];
    assert(head.drop_last() =~= a);
    assert(head.last() == SEPARATOR);
    lemma_scan_append(head, b);
    let rest = scanned(b);
    if rest.open.len() > 0 {
        assert((words_of(a) + rest.done).push(rest.open) =~= words_of(a) + rest.done.push(
            rest.open,
        ));
    }
}

/// Joining words and splitting the line again gives the words back.
pub proof fn lemma_words_of_joined(words: Seq<Seq<char>>)
    requires
        all_words(words),
    ensures
        words_of(joined(words)) == words,
    decreases words.len(),
{
    if words.len() == 0 {
    } else if words.len() == 1 {
        lemma_words_of_word(words[0]);
        assert(seq![words[0]] =~= words);
    } else {
        let init = words.drop_last();
        lemma_words_of_joined(init);
        lemma_words_of_word(words.last());
        lemma_words_of_appended(joined(init), words.last());
        assert(init + seq![words.last()] =~= words);
    }
}

} // verus!
