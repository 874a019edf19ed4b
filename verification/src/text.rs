//! Turning a typed sentence into the lower-case words the companion looks up.
use vstd::prelude::*;
use vstd::string::*;
use crate::strings::{chars_of, push_char};

verus! {

/// The characters that are dropped from a sentence before it is split.
pub open spec fn is_punctuation(c: char) -> bool {
    c == '(' || c == ')' || c == ',' || c == '"' || c == '.' || c == ';' || c == '?' || c == ':'
        || c == '\''
}

/// `s` with every punctuation character removed.
pub open spec fn strip_punctuation(s: Seq<char>) -> Seq<char> {
    s.filter(|c: char| !is_punctuation(c))
}

/// Removing punctuation drops exactly the characters `( ) , " . ; ? : '`:
/// text without them is kept whole, and none of them is left.
pub proof fn lemma_strip_drops_only_punctuation(s: Seq<char>)
    ensures
        (forall|i: int|
            0 <= i < s.len() ==> !(#[trigger] s[i] == '(' || s[i] == ')' || s[i] == ',' || s[i]
                == '"' || s[i] == '.' || s[i] == ';' || s[i] == '?' || s[i] == ':' || s[i] == '\''))
            ==> strip_punctuation(s) == s,
        forall|i: int|
            0 <= i < strip_punctuation(s).len() ==> {
                let c = #[trigger] strip_punctuation(s)[i];
                !(c == '(' || c == ')' || c == ',' || c == '"' || c == '.' || c == ';' || c == '?'
                    || c == ':' || c == '\'')
            },
    decreases s.len(),
{
    reveal(Seq::filter);
    s.filter_lemma(|c: char| !is_punctuation(c));
    if s.len() > 0 {
        lemma_strip_drops_only_punctuation(s.drop_last());
        if forall|i: int|
            0 <= i < s.len() ==> !(#[trigger] s[i] == '(' || s[i] == ')' || s[i] == ',' || s[i]
                == '"' || s[i] == '.' || s[i] == ';' || s[i] == '?' || s[i] == ':' || s[i] == '\'')
        {
            assert forall|i: int| 0 <= i < s.drop_last().len() implies !(#[trigger] s.drop_last()[i]
                == '(' || s.drop_last()[i] == ')' || s.drop_last()[i] == ',' || s.drop_last()[i] == '"'
                || s.drop_last()[i] == '.' || s.drop_last()[i] == ';' || s.drop_last()[i] == '?'
                || s.drop_last()[i] == ':' || s.drop_last()[i] == '\'') by {
                assert(s.drop_last()[i] == s[i]);
            }
            assert(s[s.len() - 1] == s.last());
            assert(s.drop_last().push(s.last()) =~= s);
        }
    }
}

/// The pieces of `s` between the occurrences of `sep`, empty pieces
/// included: what `str::split` gives for a one-character pattern.
pub open spec fn split_on(s: Seq<char>, sep: char) -> Seq<Seq<char>>
    decreases s.len(),
{
    if s.len() == 0 {
        seq![Seq::<char>::empty()]
    } else {
        let prev = split_on(s.drop_last(), sep);
        if s.last() == sep {
            prev.push(Seq::<char>::empty())
        } else {
            prev.update(prev.len() - 1, prev.last().push(s.last()))
        }
    }
}

/// The pieces of `pieces` joined with `sep` between each two of them.
pub open spec fn join_with(pieces: Seq<Seq<char>>, sep: char) -> Seq<char>
    decreases pieces.len(),
{
    if pieces.len() == 0 {
        Seq::<char>::empty()
    } else if pieces.len() == 1 {
        pieces[0]
    } else {
        join_with(pieces.drop_last(), sep).push(sep) + pieces.last()
    }
}

/// What `str::to_lowercase` returns for the characters `s` (Unicode
/// lower-case mapping, a function of `s` alone).
pub uninterp spec fn lowercase_of(s: Seq<char>) -> Seq<char>;

/// The words of a sentence: punctuation removed, split at each space, each
/// piece in lower case.
pub open spec fn words_of(s: Seq<char>) -> Seq<Seq<char>> {
    split_on(strip_punctuation(s), ' ').map_values(|w: Seq<char>| lowercase_of(w))
}

/// Every character of `s` is an ASCII character.
pub open spec fn is_ascii_text(s: Seq<char>) -> bool {
    forall|i: int| 0 <= i < s.len() ==> (#[trigger] s[i] as u32) < 128
}

/// The ASCII lower case of `c`: `A` to `Z` become `a` to `z`, every other
/// character stays.
pub open spec fn ascii_lower_char(c: char) -> char {
    if 65 <= (c as u32) && (c as u32) <= 90 {
        ((c as u32) + 32) as char
    } else {
        c
    }
}

/// The ASCII lower case of each character of `s`.
pub open spec fn ascii_lower(s: Seq<char>) -> Seq<char> {
    s.map_values(|c: char| ascii_lower_char(c))
}

/// Calls `str::to_lowercase`; the result is named `lowercase_of` of the
/// characters of `s`. Of ASCII text the Unicode lower-case mapping that the
/// documentation names takes `A` to `Z` to `a` to `z` and keeps the rest,
/// which is stated; of other text nothing more is stated.
#[verifier::external_body]
fn to_lowercase(s: &str) -> (r: String)
    ensures
        r@ == lowercase_of(s@),
        is_ascii_text(s@) ==> r@ == ascii_lower(s@),
{
    s.to_lowercase()
}

/// A sentence split into pieces always has at least one piece.
pub proof fn lemma_split_on_nonempty(s: Seq<char>, sep: char)
    ensures
        split_on(s, sep).len() >= 1,
    decreases s.len(),
{
    if s.len() > 0 {
        lemma_split_on_nonempty(s.drop_last(), sep);
    }
}

/// The number of times `c` occurs in `s`.
pub open spec fn count_of(s: Seq<char>, c: char) -> nat
    decreases s.len(),
{
    if s.len() == 0 {
        0
    } else {
        count_of(s.drop_last(), c) + if s.last() == c {
            1nat
        } else {
            0nat
        }
    }
}

/// A split has one piece more than the text has separators.
pub proof fn lemma_split_on_len(s: Seq<char>, sep: char)
    ensures
        split_on(s, sep).len() == count_of(s, sep) + 1,
    decreases s.len(),
{
    if s.len() > 0 {
        lemma_split_on_len(s.drop_last(), sep);
    }
}

/// No piece of a split holds the separator.
pub proof fn lemma_split_on_pieces_lack_sep(s: Seq<char>, sep: char)
    ensures
        forall|i: int, j: int|
            0 <= i < split_on(s, sep).len() && 0 <= j < split_on(s, sep)[i].len()
                ==> split_on(s, sep)[i][j] != sep,
    decreases s.len(),
{
    if s.len() > 0 {
        lemma_split_on_nonempty(s.drop_last(), sep);
        lemma_split_on_pieces_lack_sep(s.drop_last(), sep);
        let prev = split_on(s.drop_last(), sep);
        assert forall|i: int, j: int|
            0 <= i < split_on(s, sep).len() && 0 <= j < split_on(s, sep)[i].len()
            implies split_on(s, sep)[i][j] != sep by {
            if i < prev.len() - 1 {
                assert(split_on(s, sep)[i] == prev[i]);
            } else if i == prev.len() - 1 && s.last() != sep {
                if j < prev.last().len() {
                    assert(split_on(s, sep)[i][j] == prev[i][j]);
                }
            }
        }
    }
}

/// Joining the pieces of a split with the separator gives back the text.
pub proof fn lemma_join_split(s: Seq<char>, sep: char)
    ensures
        join_with(split_on(s, sep), sep) == s,
    decreases s.len(),
{
    if s.len() > 0 {
        let t = s.drop_last();
        let prev = split_on(t, sep);
        lemma_split_on_nonempty(t, sep);
        lemma_join_split(t, sep);
        if s.last() == sep {
            let cur = prev.push(Seq::<char>::empty());
            assert(cur.drop_last() =~= prev);
            assert(join_with(cur, sep) =~= t.push(sep));
        } else {
            let cur = prev.update(prev.len() - 1, prev.last().push(s.last()));
            if prev.len() == 1 {
                assert(cur[0] =~= t.push(s.last()));
            } else {
                assert(cur.drop_last() =~= prev.drop_last());
                assert(join_with(prev, sep) == join_with(prev.drop_last(), sep).push(sep)
                    + prev.last());
            }
            assert(s =~= t.push(s.last()));
        }
    }
}

/// `s` with the punctuation characters removed.
pub fn remove_punctuation(s: &str) -> (r: String)
    ensures
        r@ == strip_punctuation(s@),
{
    let cs = chars_of(s);
    let mut r = String::new();
    let mut i: usize = 0;
    while i < cs.len()
        invariant
            cs@ == s@,
            i <= cs.len(),
            r@ == strip_punctuation(s@.take(i as int)),
        decreases cs.len() - i,
    {
        let c = cs[i];
        proof {
            reveal(Seq::filter);
            assert(s@.take(i + 1).drop_last() =~= s@.take(i as int));
        }
        if !(c == '(' || c == ')' || c == ',' || c == '"' || c == '.' || c == ';' || c == '?'
            || c == ':' || c == '\'') {
            push_char(&mut r, c);
        }
        i = i + 1;
    }
    assert(s@.take(cs.len() as int) =~= s@);
    r
}

/// Splits a sentence into its lower-case words: the punctuation characters
/// `( ) , " . ; ? : '` are removed, the rest is split at each space (empty
/// words included) and each word is put in lower case.
pub fn parser(input: String) -> (strings: Vec<String>)
    ensures
        strings@.map_values(|w: String| w@) == words_of(input@),
        is_ascii_text(input@) ==> strings@.map_values(|w: String| w@) == split_on(
            strip_punctuation(input@),
            ' ',
        ).map_values(|w: Seq<char>| ascii_lower(w)),
{
    let no_punc = remove_punctuation(input.as_str());
    let cs = chars_of(no_punc.as_str());
    let ghost stripped = strip_punctuation(input@);
    let ghost ascii = is_ascii_text(input@);
    proof {
        if ascii {
            assert forall|i: int| 0 <= i < stripped.len() implies (#[trigger] stripped[i] as u32)
                < 128 by {
                assert(stripped.contains(stripped[i]));
                input@.lemma_filter_contains_rev(|c: char| !is_punctuation(c), stripped[i]);
            }
        }
    }
    let mut strings: Vec<String> = Vec::new();
    let mut cur = String::new();
    let mut i: usize = 0;
    while i < cs.len()
        invariant
            cs@ == stripped,
            i <= cs.len(),
            split_on(stripped.take(i as int), ' ').len() == strings.len() + 1,
            forall|j: int|
                0 <= j < strings.len() ==> #[trigger] strings@[j]@ == lowercase_of(
                    split_on(stripped.take(i as int), ' ')[j],
                ),
            cur@ == split_on(stripped.take(i as int), ' ').last(),
            ascii == is_ascii_text(input@),
            ascii ==> is_ascii_text(stripped),
            ascii ==> is_ascii_text(cur@),
            forall|j: int|
                0 <= j < strings.len() ==> ascii ==> #[trigger] strings@[j]@ == ascii_lower(
                    split_on(stripped.take(i as int), ' ')[j],
                ),
        decreases cs.len() - i,
    {
        let c = cs[i];
        let ghost before = split_on(stripped.take(i as int), ' ');
        assert(stripped.take(i + 1).drop_last() =~= stripped.take(i as int));
        assert(stripped.take(i + 1).last() == c);
        if c == ' ' {
            let w = to_lowercase(cur.as_str());
            strings.push(w);
            cur = String::new();
        } else {
            push_char(&mut cur, c);
        }
        i = i + 1;
    }
    let w = to_lowercase(cur.as_str());
    strings.push(w);
    assert(stripped.take(cs.len() as int) =~= stripped);
    assert(strings@.map_values(|w: String| w@) =~= words_of(input@));
    proof {
        if ascii {
            assert(strings@.map_values(|w: String| w@) =~= split_on(stripped, ' ').map_values(
                |w: Seq<char>| ascii_lower(w),
            ));
        }
    }
    strings
}

} // verus!
