//! The companion's vocabulary: words numbered in order of first appearance,
//! and the windows of word numbers that its embedding is built from.
use std::collections::VecDeque;
use vstd::prelude::*;
use crate::strings::same_text;
use crate::text::{count_of, lemma_split_on_len, parser, strip_punctuation, words_of};

verus! {

/// Word numbers: each word with its number.
pub struct WordMap {
    pub itemz: Vec<(String, isize)>,
}

/// The entries of a word map as pairs of characters and number.
pub open spec fn entries_of(m: &WordMap) -> Seq<(Seq<char>, isize)> {
    m.itemz@.map_values(|e: (String, isize)| (e.0@, e.1))
}

/// The number of the first entry for `w`, if there is one.
pub open spec fn lookup(entries: Seq<(Seq<char>, isize)>, w: Seq<char>) -> Option<isize>
    decreases entries.len(),
{
    if entries.len() == 0 {
        None
    } else if entries[0].0 == w {
        Some(entries[0].1)
    } else {
        lookup(entries.drop_first(), w)
    }
}

/// `lookup` gives the number of the first entry for `w`.
pub proof fn lemma_lookup_first(entries: Seq<(Seq<char>, isize)>, w: Seq<char>, i: int)
    requires
        0 <= i <= entries.len(),
        forall|j: int| 0 <= j < i ==> entries[j].0 != w,
    ensures
        lookup(entries, w) == lookup(entries.skip(i), w),
    decreases i,
{
    if i > 0 {
        lemma_lookup_first(entries.drop_first(), w, i - 1);
        assert(entries.drop_first().skip(i - 1) =~= entries.skip(i));
    } else {
        assert(entries.skip(0) =~= entries);
    }
}

/// `lookup` finds nothing exactly when no entry is for `w`.
pub proof fn lemma_lookup_none(entries: Seq<(Seq<char>, isize)>, w: Seq<char>)
    ensures
        lookup(entries, w) is None <==> forall|j: int| 0 <= j < entries.len() ==> entries[j].0 != w,
    decreases entries.len(),
{
    if entries.len() > 0 {
        lemma_lookup_none(entries.drop_first(), w);
        if lookup(entries, w) is None {
            assert forall|j: int| 0 <= j < entries.len() implies entries[j].0 != w by {
                if j > 0 {
                    assert(entries[j] == entries.drop_first()[j - 1]);
                }
            }
        }
    }
}

/// Each word has one entry, as in a map from words to numbers.
pub open spec fn one_entry_per_word(entries: Seq<(Seq<char>, isize)>) -> bool {
    forall|i: int, j: int|
        0 <= i < entries.len() && 0 <= j < entries.len() && i != j ==> entries[i].0
            != entries[j].0
}

/// In a map with one entry per word, looking a word up gives the number of
/// its entry.
pub proof fn lemma_lookup_entry(entries: Seq<(Seq<char>, isize)>, i: int)
    requires
        one_entry_per_word(entries),
        0 <= i < entries.len(),
    ensures
        lookup(entries, entries[i].0) == Some(entries[i].1),
{
    lemma_lookup_first(entries, entries[i].0, i);
    assert(entries.skip(i)[0] == entries[i]);
}

impl WordMap {
    /// Each word of the map has one entry.
    pub open spec fn wf(&self) -> bool {
        one_entry_per_word(entries_of(self))
    }

    /// In a map with one entry per word, the number looked up for a word is
    /// that of its entry.
    proof fn lemma_get_wf(&self, w: Seq<char>)
        ensures
            self.wf() ==> forall|k: int|
                0 <= k < self.itemz@.len() && #[trigger] self.itemz@[k].0@ == w ==> lookup(
                    entries_of(self),
                    w,
                ) == Some(self.itemz@[k].1),
    {
        if self.wf() {
            assert forall|k: int|
                0 <= k < self.itemz@.len() && #[trigger] self.itemz@[k].0@ == w implies lookup(
                entries_of(self),
                w,
            ) == Some(self.itemz@[k].1) by {
                lemma_lookup_entry(entries_of(self), k);
            }
        }
    }

    /// The number of `w`.
    pub fn get(&self, w: &str) -> (r: Option<isize>)
        ensures
            r == lookup(entries_of(self), w@),
            self.wf() ==> forall|k: int|
                0 <= k < self.itemz@.len() && #[trigger] self.itemz@[k].0@ == w@ ==> r == Some(
                    self.itemz@[k].1,
                ),
    {
        let ghost es = entries_of(self);
        let mut i: usize = 0;
        while i < self.itemz.len()
            invariant
                es == entries_of(self),
                i <= self.itemz.len(),
                forall|j: int| 0 <= j < i ==> es[j].0 != w@,
            decreases self.itemz.len() - i,
        {
            assert(es[i as int] == (self.itemz@[i as int].0@, self.itemz@[i as int].1));
            if same_text(self.itemz[i].0.as_str(), w) {
                proof {
                    lemma_lookup_first(es, w@, i as int);
                    self.lemma_get_wf(w@);
                }
                return Some(self.itemz[i].1);
            }
            i = i + 1;
        }
        proof {
            lemma_lookup_none(es, w@);
            self.lemma_get_wf(w@);
        }
        None
    }
}

/// The words of the questions, question after question.
pub open spec fn words_in(questions: Seq<Seq<char>>) -> Seq<Seq<char>>
    decreases questions.len(),
{
    if questions.len() == 0 {
        Seq::empty()
    } else {
        words_in(questions.drop_last()) + words_of(questions.last())
    }
}

/// How many words the questions have: one more than spaces, for each
/// question without its punctuation.
pub open spec fn word_count(questions: Seq<Seq<char>>) -> nat
    decreases questions.len(),
{
    if questions.len() == 0 {
        0
    } else {
        word_count(questions.drop_last()) + count_of(strip_punctuation(questions.last()), ' ') + 1
    }
}

/// `word_count` counts the words of the questions.
pub proof fn lemma_word_count(questions: Seq<Seq<char>>)
    ensures
        words_in(questions).len() == word_count(questions),
    decreases questions.len(),
{
    if questions.len() > 0 {
        lemma_word_count(questions.drop_last());
        lemma_split_on_len(strip_punctuation(questions.last()), ' ');
    }
}

/// The distinct words of `ws`, in order of first appearance.
pub open spec fn first_appearances(ws: Seq<Seq<char>>) -> Seq<Seq<char>>
    decreases ws.len(),
{
    if ws.len() == 0 {
        Seq::empty()
    } else if ws.drop_last().contains(ws.last()) {
        first_appearances(ws.drop_last())
    } else {
        first_appearances(ws.drop_last()).push(ws.last())
    }
}

/// The first appearances hold the words of `ws` and no more, each once, and
/// are no more than `ws`.
pub proof fn lemma_first_appearances(ws: Seq<Seq<char>>)
    ensures
        first_appearances(ws).len() <= ws.len(),
        forall|w: Seq<char>| first_appearances(ws).contains(w) <==> ws.contains(w),
        first_appearances(ws).no_duplicates(),
    decreases ws.len(),
{
    if ws.len() > 0 {
        let t = ws.drop_last();
        lemma_first_appearances(t);
        assert forall|w: Seq<char>| ws.contains(w) <==> (t.contains(w) || w == ws.last()) by {
            if ws.contains(w) {
                let j = choose|j: int| 0 <= j < ws.len() && ws[j] == w;
                if j < ws.len() - 1 {
                    assert(t[j] == w);
                }
            }
            if t.contains(w) {
                let j = choose|j: int| 0 <= j < t.len() && t[j] == w;
                assert(ws[j] == w);
            }
            if w == ws.last() {
                assert(ws[ws.len() - 1] == w);
            }
        }
        let fa = first_appearances(t);
        if !t.contains(ws.last()) {
            assert forall|w: Seq<char>| fa.push(ws.last()).contains(w) <==> (fa.contains(w) || w
                == ws.last()) by {
                if fa.push(ws.last()).contains(w) {
                    let j = choose|j: int| 0 <= j < fa.len() + 1 && fa.push(ws.last())[j] == w;
                    if j < fa.len() {
                        assert(fa[j] == w);
                    }
                }
                if fa.contains(w) {
                    let j = choose|j: int| 0 <= j < fa.len() && fa[j] == w;
                    assert(fa.push(ws.last())[j] == w);
                }
                if w == ws.last() {
                    assert(fa.push(ws.last())[fa.len() as int] == w);
                }
            }
            assert(!fa.contains(ws.last()));
        }
    }
}

/// Numbers the distinct words of the questions from 2 on, in order of first
/// appearance (0 and 1 are reserved).
#[verifier::spinoff_prover]
pub fn create_dictionary(questions: &Vec<String>) -> (dict: Vec<(String, usize)>)
    requires
        word_count(questions@.map_values(|q: String| q@)) + 2 <= usize::MAX,
    ensures
        dict@.len() == first_appearances(words_in(questions@.map_values(|q: String| q@))).len(),
        forall|i: int|
            0 <= i < dict@.len() ==> #[trigger] dict@[i].0@ == first_appearances(
                words_in(questions@.map_values(|q: String| q@)),
            )[i] && dict@[i].1 == i + 2,
        forall|i: int, j: int|
            0 <= i < dict@.len() && 0 <= j < dict@.len() && i != j ==> #[trigger] dict@[i].0@
                != #[trigger] dict@[j].0@,
{
    let ghost qs = questions@.map_values(|q: String| q@);
    let mut all: Vec<String> = Vec::new();
    let mut i: usize = 0;
    while i < questions.len()
        invariant
            qs == questions@.map_values(|q: String| q@),
            i <= questions.len(),
            all@.map_values(|w: String| w@) == words_in(qs.take(i as int)),
        decreases questions.len() - i,
    {
        let ghost before = all@.map_values(|w: String| w@);
        let mut toks = parser(questions[i].clone());
        all.append(&mut toks);
        assert(qs.take(i + 1).drop_last() =~= qs.take(i as int));
        assert(all@.map_values(|w: String| w@) =~= words_in(qs.take(i + 1)));
        i = i + 1;
    }
    assert(qs.take(questions.len() as int) =~= qs);
    let ghost ws = words_in(qs);
    proof {
        lemma_word_count(qs);
    }
    let mut dict: Vec<(String, usize)> = Vec::new();
    let mut idx: usize = 2;
    let mut k: usize = 0;
    while k < all.len()
        invariant
            all@.map_values(|w: String| w@) == ws,
            ws.len() + 2 <= usize::MAX,
            k <= all.len(),
            idx == dict.len() + 2,
            dict@.len() == first_appearances(ws.take(k as int)).len(),
            forall|j: int|
                0 <= j < dict@.len() ==> #[trigger] dict@[j].0@ == first_appearances(
                    ws.take(k as int),
                )[j] && dict@[j].1 == j + 2,
        decreases all.len() - k,
    {
        let w = &all[k];
        assert(ws[k as int] == w@);
        let ghost prefix = ws.take(k as int);
        assert(ws.take(k + 1).drop_last() =~= prefix);
        assert(ws.take(k + 1).last() == w@);
        proof {
            lemma_first_appearances(prefix);
        }
        let ghost fa = first_appearances(prefix);
        let mut found = false;
        let mut j: usize = 0;
        while j < dict.len()
            invariant
                j <= dict.len(),
                dict@.len() == fa.len(),
                forall|m: int| 0 <= m < dict@.len() ==> #[trigger] dict@[m].0@ == fa[m],
                !found ==> forall|m: int| 0 <= m < j ==> fa[m] != w@,
                found ==> fa.contains(w@),
            decreases dict.len() - j,
        {
            if same_text(dict[j].0.as_str(), w.as_str()) {
                assert(fa[j as int] == w@);
                found = true;
            }
            j = j + 1;
        }
        if !found {
            assert(!fa.contains(w@));
            assert(!prefix.contains(w@));
            assert(fa.len() <= prefix.len());
            let ghost d0 = dict@;
            dict.push((w.clone(), idx));
            idx = idx + 1;
            assert forall|m: int| 0 <= m < dict@.len() implies #[trigger] dict@[m].0@
                == first_appearances(ws.take(k + 1))[m] && dict@[m].1 == m + 2 by {
                if m < fa.len() {
                    assert(dict@[m] == d0[m]);
                }
            }
        } else {
            assert(prefix.contains(w@));
        }
        k = k + 1;
    }
    assert(ws.take(all.len() as int) =~= ws);
    proof {
        lemma_first_appearances(ws);
        let fa = first_appearances(ws);
        assert forall|i: int, j: int|
            0 <= i < dict@.len() && 0 <= j < dict@.len() && i != j implies #[trigger] dict@[i].0@
            != #[trigger] dict@[j].0@ by {
            assert(dict@[i].0@ == fa[i]);
            assert(dict@[j].0@ == fa[j]);
        }
    }
    dict
}

/// The number that stands for "no word" in a window.
pub const NO_WORD: isize = 1;

/// The numbers of the words of `toks` that the map knows, in order.
pub open spec fn known_numbers(entries: Seq<(Seq<char>, isize)>, toks: Seq<Seq<char>>) -> Seq<isize>
    decreases toks.len(),
{
    if toks.len() == 0 {
        Seq::empty()
    } else {
        let prev = known_numbers(entries, toks.drop_last());
        match lookup(entries, toks.last()) {
            Some(n) => prev.push(n),
            None => prev,
        }
    }
}

/// The words of `toks` that the map does not know, in order.
pub open spec fn unknown_words(entries: Seq<(Seq<char>, isize)>, toks: Seq<Seq<char>>) -> Seq<Seq<char>> {
    toks.filter(|w: Seq<char>| lookup(entries, w) is None)
}

/// The last four numbers of `s` (`s` has at least four).
pub open spec fn last_four(s: Seq<isize>) -> Seq<isize> {
    s.subrange(s.len() - 4, s.len() as int)
}

/// The window after the known words and `flushes` further "no word" marks,
/// starting from a window of four marks.
pub open spec fn window_after(ids: Seq<isize>, flushes: nat) -> Seq<isize> {
    last_four(seq![NO_WORD, NO_WORD, NO_WORD, NO_WORD] + ids + Seq::new(flushes, |i: int| NO_WORD))
}

/// The windows of the known words themselves: one for each known word after
/// the first, ending at that word.
pub open spec fn word_windows(ids: Seq<isize>) -> Seq<Seq<isize>> {
    Seq::new(
        if ids.len() == 0 {
            0nat
        } else {
            (ids.len() - 1) as nat
        },
        |k: int| window_after(ids.take(k + 2), 0),
    )
}

/// All windows whose embeddings make up a sentence's: the windows of the
/// known words after the first, then the two taken while one and two further
/// "no word" marks are pushed.
pub open spec fn sentence_windows(ids: Seq<isize>) -> Seq<Seq<isize>> {
    word_windows(ids) + seq![window_after(ids, 1), window_after(ids, 2)]
}

/// The windows after one more known word: its own window is added unless it
/// is the first known word.
proof fn lemma_word_windows_push(ids: Seq<isize>, s: isize)
    ensures
        ids.len() == 0 ==> word_windows(ids.push(s)) == word_windows(ids),
        ids.len() > 0 ==> word_windows(ids.push(s)) == word_windows(ids).push(
            window_after(ids.push(s), 0),
        ),
{
    if ids.len() == 0 {
        assert(word_windows(ids.push(s)) =~= word_windows(ids));
    } else {
        let n = ids.push(s);
        assert forall|k: int| 0 <= k < ids.len() - 1 implies #[trigger] n.take(k + 2) == ids.take(k + 2) by {
            assert(n.take(k + 2) =~= ids.take(k + 2));
        }
        assert(n.take(ids.len() + 1int) =~= n);
        assert(word_windows(n) =~= word_windows(ids).push(window_after(n, 0)));
    }
}

/// The shape of a sentence's windows: one per known word after the first,
/// then two more; each holds four numbers; the window of a word ends with
/// that word's number after the number of the word before it; the first
/// flush window ends with one "no word" mark after the last known word, the
/// second with two.
pub proof fn lemma_sentence_windows_shape(ids: Seq<isize>)
    ensures
        NO_WORD == 1,
        sentence_windows(ids).len() == (if ids.len() == 0 {
            2
        } else {
            ids.len() + 1
        }),
        forall|k: int|
            0 <= k < sentence_windows(ids).len() ==> #[trigger] sentence_windows(ids)[k].len() == 4,
        forall|k: int|
            0 <= k < ids.len() - 1 ==> #[trigger] sentence_windows(ids)[k][3] == ids[k + 1]
                && sentence_windows(ids)[k][2] == ids[k],
        ({
            let n = sentence_windows(ids).len();
            &&& sentence_windows(ids)[n - 2][3] == NO_WORD
            &&& sentence_windows(ids)[n - 1][3] == NO_WORD
            &&& sentence_windows(ids)[n - 1][2] == NO_WORD
            &&& ids.len() > 0 ==> sentence_windows(ids)[n - 2][2] == ids.last()
                && sentence_windows(ids)[n - 1][1] == ids.last()
        }),
{
    let w = sentence_windows(ids);
    assert forall|k: int| 0 <= k < ids.len() - 1 implies #[trigger] w[k][3] == ids[k + 1] && w[k][2]
        == ids[k] by {
        let t = ids.take(k + 2);
        let full = seq![NO_WORD, NO_WORD, NO_WORD, NO_WORD] + t + Seq::new(0, |i: int| NO_WORD);
        assert(full[k + 5] == ids[k + 1]);
        assert(full[k + 4] == ids[k]);
    }
    let f1 = seq![NO_WORD, NO_WORD, NO_WORD, NO_WORD] + ids + Seq::new(1, |i: int| NO_WORD);
    let f2 = seq![NO_WORD, NO_WORD, NO_WORD, NO_WORD] + ids + Seq::new(2, |i: int| NO_WORD);
    assert(f1[f1.len() - 1] == NO_WORD);
    assert(f2[f2.len() - 1] == NO_WORD);
    assert(f2[f2.len() - 2] == NO_WORD);
    if ids.len() > 0 {
        assert(f1[f1.len() - 2] == ids.last());
        assert(f2[f2.len() - 3] == ids.last());
    }
}

/// What the indexer takes from a sentence.
pub struct NgramWindows {
    /// The windows of four word numbers whose embeddings are summed.
    pub windows: Vec<VecDeque<isize>>,
    /// The words the vocabulary lacks, to be noted for later.
    pub unknown: Vec<String>,
}

/// A copy of a window.
fn copy_window(q: &VecDeque<isize>) -> (r: VecDeque<isize>)
    ensures
        r@ == q@,
{
    let mut r: VecDeque<isize> = VecDeque::new();
    let mut j: usize = 0;
    while j < q.len()
        invariant
            j <= q@.len(),
            r@ == q@.take(j as int),
        decreases q@.len() - j,
    {
        r.push_back(q[j]);
        assert(q@.take(j + 1) =~= q@.take(j as int).push(q@[j as int]));
        j = j + 1;
    }
    assert(q@.take(q@.len() as int) =~= q@);
    r
}

/// Shifts a word number into the window: it enters at the back and the
/// oldest number leaves at the front.
fn shift_in(ngram: &mut VecDeque<isize>, n: isize)
    requires
        old(ngram)@.len() == 4,
    ensures
        final(ngram)@ == old(ngram)@.push(n).subrange(1, 5),
{
    ngram.push_back(n);
    ngram.pop_front();
}

/// Slides a window of four word numbers over the known words of the
/// sentence, starting from four "no word" marks, and collects the words the
/// vocabulary lacks. The windows whose embeddings are summed are those ending
/// at each known word after the first, then the two taken while one and two
/// further "no word" marks are pushed.
pub fn indexer(toks: &Vec<String>, dict: &WordMap) -> (r: NgramWindows)
    ensures
        r.unknown@.map_values(|w: String| w@) == unknown_words(
            entries_of(dict),
            toks@.map_values(|w: String| w@),
        ),
        r.windows@.map_values(|w: VecDeque<isize>| w@) == sentence_windows(
            known_numbers(entries_of(dict), toks@.map_values(|w: String| w@)),
        ),
{
    let ghost es = entries_of(dict);
    let ghost ts = toks@.map_values(|w: String| w@);
    let mut ngram: VecDeque<isize> = VecDeque::new();
    ngram.push_back(NO_WORD);
    ngram.push_back(NO_WORD);
    ngram.push_back(NO_WORD);
    ngram.push_back(NO_WORD);
    let mut windows: Vec<VecDeque<isize>> = Vec::new();
    let mut unknown: Vec<String> = Vec::new();
    let mut seen_first = false;
    let mut i: usize = 0;
    proof {
        assert(ngram@ =~= window_after(known_numbers(es, ts.take(0)), 0));
        assert(windows@.map_values(|w: VecDeque<isize>| w@) =~= word_windows(
            known_numbers(es, ts.take(0)),
        ));
    }
    while i < toks.len()
        invariant
            es == entries_of(dict),
            ts == toks@.map_values(|w: String| w@),
            i <= toks.len(),
            ngram@ == window_after(known_numbers(es, ts.take(i as int)), 0),
            seen_first == (known_numbers(es, ts.take(i as int)).len() > 0),
            windows@.map_values(|w: VecDeque<isize>| w@) == word_windows(
                known_numbers(es, ts.take(i as int)),
            ),
            unknown@.map_values(|w: String| w@) == unknown_words(es, ts.take(i as int)),
        decreases toks.len() - i,
    {
        let ghost ids = known_numbers(es, ts.take(i as int));
        proof {
            reveal(Seq::filter);
            assert(ts.take(i + 1).drop_last() =~= ts.take(i as int));
            assert(ts.take(i + 1).last() == toks@[i as int]@);
        }
        match dict.get(toks[i].as_str()) {
            Some(s) => {
                shift_in(&mut ngram, s);
                assert(ngram@ =~= window_after(ids.push(s), 0));
                proof {
                    lemma_word_windows_push(ids, s);
                }
                if seen_first {
                    let ghost w0 = windows@;
                    let w = copy_window(&ngram);
                    windows.push(w);
                    assert(windows@.map_values(|w: VecDeque<isize>| w@) =~= w0.map_values(
                        |w: VecDeque<isize>| w@,
                    ).push(window_after(ids.push(s), 0)));
                }
                seen_first = true;
            },
            None => {
                let ghost u0 = unknown@;
                unknown.push(toks[i].clone());
                assert(unknown@.map_values(|w: String| w@) =~= u0.map_values(|w: String| w@).push(
                    toks@[i as int]@,
                ));
            },
        }
        i = i + 1;
    }
    assert(ts.take(toks.len() as int) =~= ts);
    let ghost ids = known_numbers(es, ts);
    let ghost w0 = windows@;
    shift_in(&mut ngram, NO_WORD);
    assert(ngram@ =~= window_after(ids, 1));
    let w = copy_window(&ngram);
    windows.push(w);
    shift_in(&mut ngram, NO_WORD);
    assert(ngram@ =~= window_after(ids, 2));
    windows.push(ngram);
    assert(windows@.map_values(|w: VecDeque<isize>| w@) =~= sentence_windows(ids));
    NgramWindows { windows, unknown }
}

} // verus!
