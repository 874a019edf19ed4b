//! Small string utilities shared by the text handling modules.
use vstd::prelude::*;
use vstd::string::*;

verus! {

/// The sequence `s` without its last character; the empty sequence stays empty.
pub open spec fn drop_last_char(s: Seq<char>) -> Seq<char> {
    if s.len() == 0 {
        s
    } else {
        s.drop_last()
    }
}

/// Appends `c` to `s`, as `String::push` does.
#[verifier::external_body]
pub(crate) fn push_char(s: &mut String, c: char)
    ensures
        final(s)@ == old(s)@.push(c),
{
    s.push(c);
}

/// Removes the last character of `s`, as `String::pop` does: `None` and `s`
/// unchanged when `s` is empty, else the removed character.
#[verifier::external_body]
pub(crate) fn pop_char(s: &mut String) -> (r: Option<char>)
    ensures
        final(s)@ == drop_last_char(old(s)@),
        old(s)@.len() == 0 ==> r is None,
        old(s)@.len() > 0 ==> r == Some(old(s)@.last()),
{
    s.pop()
}

/// The characters of `s`, in order.
pub fn chars_of(s: &str) -> (r: Vec<char>)
    ensures
        r@ == s@,
{
    let n = s.unicode_len();
    let mut r: Vec<char> = Vec::new();
    let mut i: usize = 0;
    while i < n
        invariant
            n == s@.len(),
            i <= n,
            r@ == s@.take(i as int),
        decreases n - i,
    {
        let c = s.get_char(i);
        r.push(c);
        assert(s@.take(i + 1) =~= s@.take(i as int).push(c));
        i = i + 1;
    }
    assert(s@.take(n as int) =~= s@);
    r
}

/// Whether two strings hold the same characters.
pub fn same_text(a: &str, b: &str) -> (r: bool)
    ensures
        r == (a@ == b@),
{
    let n = a.unicode_len();
    let m = b.unicode_len();
    if n != m {
        return false;
    }
    let mut i: usize = 0;
    while i < n
        invariant
            n == a@.len(),
            n == b@.len(),
            i <= n,
            forall|j: int| 0 <= j < i ==> a@[j] == b@[j],
        decreases n - i,
    {
        if a.get_char(i) != b.get_char(i) {
            return false;
        }
        i = i + 1;
    }
    assert(a@ =~= b@);
    true
}

/// The backspace character, which is never taken as typed text.
pub open spec fn is_backspace(c: char) -> bool {
    c == '\u{8}'
}

/// The characters of `typed` that are taken as text.
pub open spec fn typed_text(typed: Seq<char>) -> Seq<char> {
    typed.filter(|c: char| !is_backspace(c))
}

/// Typed text keeps every character but the backspace character `\u{8}`, in
/// order: text without a backspace is kept whole, no backspace is left, and
/// a lone backspace gives nothing.
pub proof fn lemma_typed_text_drops_only_backspace(typed: Seq<char>)
    ensures
        (forall|i: int| 0 <= i < typed.len() ==> typed[i] != '\u{8}') ==> typed_text(typed)
            == typed,
        forall|i: int|
            0 <= i < typed_text(typed).len() ==> #[trigger] typed_text(typed)[i] != '\u{8}',
        typed_text(typed).len() <= typed.len(),
        typed_text(seq!['\u{8}']) == Seq::<char>::empty(),
        forall|c: char| c != '\u{8}' ==> #[trigger] typed_text(seq![c]) == seq![c],
        typed_text(typed.push('\u{8}')) == typed_text(typed),
        forall|c: char| c != '\u{8}' ==> #[trigger] typed_text(typed.push(c)) == typed_text(
            typed,
        ).push(c),
    decreases typed.len(),
{
    reveal_with_fuel(Seq::filter, 2);
    typed.filter_lemma(|c: char| !is_backspace(c));
    if typed.len() > 0 {
        lemma_typed_text_drops_only_backspace(typed.drop_last());
        assert(typed.push('\u{8}').drop_last() =~= typed);
        assert forall|c: char| c != '\u{8}' implies #[trigger] typed_text(typed.push(c))
            == typed_text(typed).push(c) by {
            assert(typed.push(c).drop_last() =~= typed);
        }
        if forall|i: int| 0 <= i < typed.len() ==> typed[i] != '\u{8}' {
            assert forall|i: int| 0 <= i < typed.drop_last().len() implies typed.drop_last()[i]
                != '\u{8}' by {
                assert(typed.drop_last()[i] == typed[i]);
            }
            assert(typed.drop_last().push(typed.last()) =~= typed);
        }
    } else {
        assert(typed.push('\u{8}').drop_last() =~= typed);
        assert forall|c: char| c != '\u{8}' implies #[trigger] typed_text(typed.push(c))
            == typed_text(typed).push(c) by {
            assert(typed.push(c).drop_last() =~= typed);
        }
    }
    assert(seq!['\u{8}'].drop_last() =~= Seq::<char>::empty());
    assert forall|c: char| c != '\u{8}' implies #[trigger] typed_text(seq![c]) == seq![c] by {
        assert(seq![c].drop_last() =~= Seq::<char>::empty());
    }
}

/// Appends the typed characters other than backspace.
pub fn append_typed(s: &mut String, typed: &Vec<char>)
    ensures
        final(s)@ == old(s)@ + typed_text(typed@),
        (forall|i: int| 0 <= i < typed@.len() ==> typed@[i] != '\u{8}') ==> final(s)@ == old(
            s,
        )@ + typed@,
{
    proof {
        lemma_typed_text_drops_only_backspace(typed@);
    }
    let ghost s0 = s@;
    let mut i: usize = 0;
    while i < typed.len()
        invariant
            i <= typed.len(),
            s@ == s0 + typed_text(typed@.take(i as int)),
        decreases typed.len() - i,
    {
        let c = typed[i];
        proof {
            reveal(Seq::filter);
            assert(typed@.take(i + 1).drop_last() =~= typed@.take(i as int));
        }
        if c != '\u{8}' {
            push_char(s, c);
            assert(s@ =~= s0 + typed_text(typed@.take(i + 1)));
        }
        i = i + 1;
    }
    assert(typed@.take(typed.len() as int) =~= typed@);
}

} // verus!
