//! The first word splitter of the chat companion: words are slices of the
//! sentence, and a short list of filler words is dropped.
use vstd::prelude::*;
use vstd::string::*;
use crate::strings::same_text;
use crate::text::split_on;

verus! {

/// The filler words that `stemmer` drops.
pub open spec fn is_stopword(w: Seq<char>) -> bool {
    w == "a"@ || w == "about"@ || w == "above"@ || w == "across"@ || w == "after"@
        || w == "afterwards"@ || w == "again"@ || w == "against"@ || w == "all"@ || w == "almost"@
        || w == "purpose"@
}

/// The words of `words` that are not filler words, in order.
pub open spec fn without_fillers(words: Seq<Seq<char>>) -> Seq<Seq<char>> {
    words.filter(|w: Seq<char>| !is_stopword(w))
}

/// The filler words are exactly the eleven of the list: "a", "about",
/// "above", "across", "after", "afterwards", "again", "against", "all",
/// "almost" and "purpose"; any other word, "the" among them, is kept.
pub proof fn lemma_filler_words_are_the_list(w: Seq<char>)
    ensures
        is_stopword(w) <==> (w == "a"@ || w == "about"@ || w == "above"@ || w == "across"@ || w
            == "after"@ || w == "afterwards"@ || w == "again"@ || w == "against"@ || w == "all"@
            || w == "almost"@ || w == "purpose"@),
{
}

/// Words that are none of the eleven filler words all pass `stemmer`
/// unchanged and in order.
pub proof fn lemma_stemmer_keeps_other_words(words: Seq<Seq<char>>)
    requires
        forall|i: int|
            0 <= i < words.len() ==> !(#[trigger] words[i] == "a"@ || words[i] == "about"@
                || words[i] == "above"@ || words[i] == "across"@ || words[i] == "after"@
                || words[i] == "afterwards"@ || words[i] == "again"@ || words[i] == "against"@
                || words[i] == "all"@ || words[i] == "almost"@ || words[i] == "purpose"@),
    ensures
        without_fillers(words) == words,
    decreases words.len(),
{
    reveal(Seq::filter);
    if words.len() > 0 {
        lemma_stemmer_keeps_other_words(words.drop_last());
        assert(!is_stopword(words[words.len() - 1]));
        assert(words.drop_last().push(words.last()) =~= words);
    }
}

/// Each of the eleven filler words is dropped: a word of the list alone
/// gives no words.
pub proof fn lemma_stemmer_drops_listed_word(w: Seq<char>)
    requires
        w == "a"@ || w == "about"@ || w == "above"@ || w == "across"@ || w == "after"@ || w
            == "afterwards"@ || w == "again"@ || w == "against"@ || w == "all"@ || w == "almost"@
            || w == "purpose"@,
    ensures
        without_fillers(seq![w]) == Seq::<Seq<char>>::empty(),
{
    reveal_with_fuel(Seq::filter, 2);
    assert(seq![w].drop_last() =~= Seq::<Seq<char>>::empty());
}

/// After `stemmer` no filler word is left, and every word that is not a
/// filler word of the input is kept.
pub proof fn lemma_stemmer_drops_exactly_fillers(words: Seq<Seq<char>>)
    ensures
        forall|i: int|
            0 <= i < without_fillers(words).len() ==> !is_stopword(
                #[trigger] without_fillers(words)[i],
            ),
        forall|i: int|
            0 <= i < words.len() && !is_stopword(#[trigger] words[i]) ==> without_fillers(
                words,
            ).contains(words[i]),
{
    broadcast use vstd::seq_lib::group_filter_ensures;

}

/// Splits `input` at each space into slices of it, empty slices included.
pub fn parser(input: &str) -> (strings: Vec<&str>)
    ensures
        strings@.map_values(|w: &str| w@) == split_on(input@, ' '),
{
    let n = input.unicode_len();
    let mut strings: Vec<&str> = Vec::new();
    let mut start: usize = 0;
    let mut i: usize = 0;
    while i < n
        invariant
            n == input@.len(),
            start <= i <= n,
            split_on(input@.take(i as int), ' ').len() == strings.len() + 1,
            forall|j: int|
                0 <= j < strings.len() ==> #[trigger] strings@[j]@ == split_on(
                    input@.take(i as int),
                    ' ',
                )[j],
            input@.subrange(start as int, i as int) == split_on(input@.take(i as int), ' ').last(),
        decreases n - i,
    {
        let c = input.get_char(i);
        assert(input@.take(i + 1).drop_last() =~= input@.take(i as int));
        assert(input@.take(i + 1).last() == c);
        if c == ' ' {
            let w = input.substring_char(start, i);
            strings.push(w);
            start = i + 1;
            assert(input@.subrange(start as int, i + 1) =~= Seq::<char>::empty());
        } else {
            assert(input@.subrange(start as int, i + 1) =~= input@.subrange(
                start as int,
                i as int,
            ).push(c));
        }
        i = i + 1;
    }
    let w = input.substring_char(start, n);
    strings.push(w);
    assert(input@.take(n as int) =~= input@);
    assert(strings@.map_values(|w: &str| w@) =~= split_on(input@, ' '));
    strings
}

/// Whether `w` is one of the filler words.
fn is_stopword_exec(w: &str) -> (r: bool)
    ensures
        r == is_stopword(w@),
{
    same_text(w, "a") || same_text(w, "about") || same_text(w, "above") || same_text(w, "across")
        || same_text(w, "after") || same_text(w, "afterwards") || same_text(w, "again")
        || same_text(w, "against") || same_text(w, "all") || same_text(w, "almost")
        || same_text(w, "purpose")
}

/// Keeps the words that are not filler words, in their order.
pub fn stemmer(strings: Vec<&str>) -> (new_strings: Vec<&str>)
    ensures
        new_strings@.map_values(|w: &str| w@) == without_fillers(
            strings@.map_values(|w: &str| w@),
        ),
{
    let ghost views = strings@.map_values(|w: &str| w@);
    let mut new_strings: Vec<&str> = Vec::new();
    let mut i: usize = 0;
    while i < strings.len()
        invariant
            views == strings@.map_values(|w: &str| w@),
            i <= strings.len(),
            new_strings@.map_values(|w: &str| w@) == views.take(i as int).filter(
                |w: Seq<char>| !is_stopword(w),
            ),
        decreases strings.len() - i,
    {
        let s = strings[i];
        proof {
            reveal(Seq::filter);
            assert(views.take(i + 1).drop_last() =~= views.take(i as int));
            assert(views.take(i + 1).last() == s@);
        }
        let ghost prev = new_strings@;
        if !is_stopword_exec(s) {
            new_strings.push(s);
            assert(new_strings@.map_values(|w: &str| w@) =~= prev.map_values(|w: &str| w@).push(
                s@,
            ));
        }
        i = i + 1;
    }
    assert(views.take(strings.len() as int) =~= views);
    new_strings
}

} // verus!
