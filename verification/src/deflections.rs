//! The companion's evasive answers and its password riddle.
use vstd::prelude::*;
use vstd::string::*;
use vstd::utf8::*;
use crate::encoding::{lemma_boundary_in_prefix, lemma_boundary_in_suffix, lemma_char_offset_is_boundary, lemma_text_is_decoded_bytes};
use crate::chance::random_between;
use crate::strings::{chars_of, push_char, same_text};
use crate::text::{lemma_split_on_nonempty, parser, strip_punctuation, words_of};

verus! {

broadcast use {encode_utf8_valid_utf8, encode_utf8_decode_utf8};

/// The password that opens the e-mail.
pub struct Password {
    pub val: String,
}

impl Default for Password {
    fn default() -> (r: Self)
        ensures
            r.val@ == Seq::<char>::empty(),
    {
        Password { val: String::new() }
    }
}

/// The password the game starts with.
pub fn initial_password() -> (r: Password)
    ensures
        r.val@ == "swiftfido3301"@,
{
    Password { val: "swiftfido3301".to_owned() }
}

/// Why the companion evades a question.
#[derive(Debug, Clone, Copy, PartialEq, Eq, Structural)]
pub enum DeflectionType {
    /// The question was not understood.
    NoMatch,
    /// The story has not come far enough for the answer.
    StageTooLow,
}

/// An evasive answer.
pub struct Deflection {
    pub answer: String,
    pub vector: Vec<u32>,
}

/// The evasive answers, in the order of the data file.
pub struct DeflectDict {
    pub items: Vec<Deflection>,
}

/// The positions of the answers that `generate_deflection` picks among, for
/// each kind: from `lo` up to but not including `hi`.
pub open spec fn deflection_range(d: DeflectionType) -> (int, int) {
    match d {
        DeflectionType::NoMatch => (3, 7),
        DeflectionType::StageTooLow => (0, 3),
    }
}

/// An answer to a question not understood is drawn from positions 3 to 6, an
/// answer for a stage not reached yet from positions 0 to 2.
pub proof fn lemma_deflection_ranges()
    ensures
        deflection_range(DeflectionType::NoMatch) == (3int, 7int),
        deflection_range(DeflectionType::StageTooLow) == (0int, 3int),
{
}

/// The evasive answer at the drawn position `draw`, which lies in the range
/// of the given kind.
pub fn deflection_at(d: DeflectionType, draw: i32, dict: &DeflectDict) -> (r: String)
    requires
        deflection_range(d).0 <= draw < deflection_range(d).1,
        dict.items.len() >= deflection_range(d).1,
    ensures
        r@ == dict.items@[draw as int].answer@,
{
    let i = draw as usize;
    dict.items[i].answer.clone()
}

/// Picks an evasive answer of the given kind at random: one of the answers at
/// positions 3 to 6 when the question was not understood, 0 to 2 when the
/// story has not come far enough.
pub fn generate_deflection(d: DeflectionType, dict: &DeflectDict) -> (r: String)
    requires
        dict.items.len() >= deflection_range(d).1,
    ensures
        exists|i: int|
            deflection_range(d).0 <= i < deflection_range(d).1 && r@ == dict.items@[i].answer@,
{
    let draw = match d {
        DeflectionType::NoMatch => random_between(3, 6),
        DeflectionType::StageTooLow => random_between(0, 2),
    };
    deflection_at(d, draw, dict)
}

/// The answer the companion gives to a question: `confident` says whether the
/// closest known question was close enough, `closest_answer` and
/// `closest_stage` are that question's answer and the story stage it needs,
/// and `stage` the stage the player may see. A question not understood, or
/// one whose answer needs a later stage, gets an evasive answer.
pub fn answerer(
    confident: bool,
    closest_answer: String,
    closest_stage: isize,
    stage: isize,
    dict: &DeflectDict,
) -> (r: String)
    requires
        !confident ==> dict.items.len() >= 7,
        confident && closest_stage > stage ==> dict.items.len() >= 3,
    ensures
        !confident ==> exists|i: int| 3 <= i < 7 && r@ == dict.items@[i].answer@,
        confident && closest_stage > stage ==> exists|i: int|
            0 <= i < 3 && r@ == dict.items@[i].answer@,
        confident && closest_stage <= stage ==> r@ == closest_answer@,
{
    if !confident {
        return generate_deflection(DeflectionType::NoMatch, dict);
    }
    if closest_stage > stage {
        return generate_deflection(DeflectionType::StageTooLow, dict);
    }
    closest_answer
}

/// The question that brings up the blue screen.
pub open spec fn is_farnan(q: Seq<char>) -> bool {
    q == "farnan is great"@
}

/// The words begin with "is the password".
pub open spec fn asks_first_form(sp: Seq<Seq<char>>) -> bool {
    sp.len() >= 3 && sp[0] == "is"@ && sp[1] == "the"@ && sp[2] == "password"@
}

/// The words begin with "is" and end with "the password".
pub open spec fn asks_last_form(sp: Seq<Seq<char>>) -> bool {
    sp.len() >= 2 && sp[0] == "is"@ && sp[sp.len() - 2] == "the"@ && sp[sp.len() - 1]
        == "password"@
}

/// The word tests look at a word past the last one: the words begin with
/// "is" and stop there, or with "is the" and stop there.
pub open spec fn word_tests_overrun(sp: Seq<Seq<char>>) -> bool {
    sp[0] == "is"@ && (sp.len() < 2 || (sp[1] == "the"@ && sp.len() < 3))
}

/// The byte slices of the question that the guess is cut from exist: from
/// byte 18 to the end for the first form, from byte 1 to 12 bytes before the
/// end for the last form, each starting and ending at a character boundary.
pub open spec fn guess_slices_exist(q: Seq<char>) -> bool {
    let qb = encode_utf8(q);
    let sp = words_of(q);
    &&& asks_first_form(sp) ==> qb.len() >= 18 && is_char_boundary(qb, 18)
    &&& asks_last_form(sp) ==> qb.len() >= 13 && is_char_boundary(qb, 1) && is_char_boundary(
        qb,
        qb.len() - 12,
    )
}

/// What `format!("{:?}", s)` gives for a string with the characters `s`.
pub uninterp spec fn debug_of(s: Seq<char>) -> Seq<char>;

/// The password the player guessed: for the last form the debug rendering
/// of bytes 1 up to 12 before the end, else the text from byte 18 on.
pub open spec fn guessed_password(q: Seq<char>) -> Seq<char> {
    let qb = encode_utf8(q);
    if asks_last_form(words_of(q)) {
        debug_of(decode_utf8(qb.subrange(1, qb.len() - 12)))
    } else {
        decode_utf8(qb.subrange(18, qb.len() as int))
    }
}

/// The position of the last `c` in `p`.
pub open spec fn last_index_of(p: Seq<char>, c: char) -> Option<int>
    decreases p.len(),
{
    if p.len() == 0 {
        None
    } else if p.last() == c {
        Some(p.len() - 1)
    } else {
        last_index_of(p.drop_last(), c)
    }
}

/// A position found by `last_index_of` is a position of `c` in `p`.
pub proof fn lemma_last_index_of(p: Seq<char>, c: char)
    ensures
        last_index_of(p, c) matches Some(k) ==> 0 <= k < p.len() && p[k] == c,
        last_index_of(p, c) is None ==> forall|i: int| 0 <= i < p.len() ==> p[i] != c,
    decreases p.len(),
{
    if p.len() > 0 {
        lemma_last_index_of(p.drop_last(), c);
        assert forall|i: int| 0 <= i < p.len() - 1 implies p[i] == p.drop_last()[i] by {}
    }
}

/// The byte offset in the password `p` of the last character equal to the
/// first character of the guess `g`, if there is one.
pub open spec fn match_start(p: Seq<char>, g: Seq<char>) -> Option<int> {
    if p.len() == 0 {
        None
    } else {
        match last_index_of(p, g[0]) {
            Some(k) => Some(encode_utf8(p.take(k)).len() as int),
            None => None,
        }
    }
}

/// The comparison of the guess with the password can be made: a non-empty
/// password is compared with a non-empty guess, and the password's bytes
/// from the match start, as many as the guess has, exist and end at a
/// character boundary.
pub open spec fn guess_comparable(p: Seq<char>, g: Seq<char>) -> bool {
    &&& p.len() > 0 ==> g.len() > 0
    &&& match_start(p, g) matches Some(s) ==> {
        &&& s + encode_utf8(g).len() <= encode_utf8(p).len()
        &&& is_char_boundary(encode_utf8(p), s + encode_utf8(g).len())
    }
}

/// The part of the password that the guess is compared with.
pub open spec fn compared_part(p: Seq<char>, g: Seq<char>, s: int) -> Seq<char> {
    decode_utf8(encode_utf8(p).subrange(s, s + encode_utf8(g).len()))
}

/// The inputs on which the password riddle runs to its end.
pub open spec fn riddle_defined(q: Seq<char>, p: Seq<char>) -> bool {
    is_farnan(q) || {
        let sp = words_of(q);
        &&& !word_tests_overrun(sp)
        &&& guess_slices_exist(q)
        &&& (asks_first_form(sp) || asks_last_form(sp)) ==> guess_comparable(
            p,
            guessed_password(q),
        )
    }
}

/// The password after the riddle: a guess that starts like a part of the
/// password but differs from it replaces the password when luck has it.
pub open spec fn password_after(q: Seq<char>, p: Seq<char>, lucky: bool) -> Seq<char> {
    let sp = words_of(q);
    let g = guessed_password(q);
    if !is_farnan(q) && (asks_first_form(sp) || asks_last_form(sp)) && lucky {
        match match_start(p, g) {
            Some(s) => if compared_part(p, g, s) != g {
                g
            } else {
                p
            },
            None => p,
        }
    } else {
        p
    }
}

/// The lines the riddle reacts to: "farnan is great" exactly; words that
/// begin "is the password"; words that begin with "is" and end "the
/// password".
pub proof fn lemma_riddle_triggers(q: Seq<char>, sp: Seq<Seq<char>>)
    ensures
        is_farnan(q) <==> q == "farnan is great"@,
        asks_first_form(sp) <==> (sp.len() >= 3 && sp[0] == "is"@ && sp[1] == "the"@ && sp[2]
            == "password"@),
        asks_last_form(sp) <==> (sp.len() >= 2 && sp[0] == "is"@ && sp[sp.len() - 2] == "the"@
            && sp[sp.len() - 1] == "password"@),
{
}

/// The riddle changes the password only when luck has it, and never on the
/// blue-screen line.
pub proof fn lemma_password_kept_without_luck(q: Seq<char>, p: Seq<char>, lucky: bool)
    requires
        !lucky || is_farnan(q),
    ensures
        password_after(q, p, lucky) == p,
{
}

/// A guess equal to the part of the password it is compared with never
/// changes the password.
pub proof fn lemma_right_guess_keeps_password(q: Seq<char>, p: Seq<char>, lucky: bool)
    requires
        match_start(p, guessed_password(q)) matches Some(s) && compared_part(
            p,
            guessed_password(q),
            s,
        ) == guessed_password(q),
    ensures
        password_after(q, p, lucky) == p,
{
}

/// Calls `format!("{:?}", s)`; the result is named `debug_of` of the
/// characters of `s`, with nothing more stated of it.
#[verifier::external_body]
fn debug_string(s: &str) -> (r: String)
    ensures
        r@ == debug_of(s@),
{
    format!("{:?}", s)
}

/// The guess cut out of the question, or `None` where a slice does not exist.
fn cut_guess(question: &str, first_form: bool, last_form: bool) -> (r: Option<String>)
    requires
        first_form == asks_first_form(words_of(question@)),
        last_form == asks_last_form(words_of(question@)),
        first_form || last_form,
    ensures
        r is Some <==> guess_slices_exist(question@),
        r matches Some(g) ==> g@ == guessed_password(question@),
{
    let ghost qb = question.spec_bytes();
    let qn = question.as_bytes().len();
    let mut guess = String::new();
    if first_form {
        if qn < 18 || !question.is_char_boundary(18) {
            return None;
        }
        let (_, rest) = question.split_at(18);
        proof {
            lemma_text_is_decoded_bytes(rest);
        }
        guess = rest.to_owned();
    }
    if last_form {
        if qn < 13 || !question.is_char_boundary(1) || !question.is_char_boundary(qn - 12) {
            return None;
        }
        let (_, tail) = question.split_at(1);
        proof {
            lemma_boundary_in_suffix(qb, 1, qn - 13);
        }
        let (mid, _) = tail.split_at(qn - 13);
        proof {
            assert(mid.spec_bytes() =~= qb.subrange(1, qn - 12));
            lemma_text_is_decoded_bytes(mid);
        }
        guess = debug_string(mid);
    }
    Some(guess)
}

/// The byte offset of the last character of `p` equal to `c`.
fn last_offset_of(p: &str, c: char) -> (r: Option<usize>)
    ensures
        r matches Some(s) ==> last_index_of(p@, c) matches Some(k) && s == encode_utf8(
            p@.take(k),
        ).len(),
        r is None ==> last_index_of(p@, c) is None,
{
    let cs = chars_of(p);
    let mut prefix = String::new();
    let mut start: Option<usize> = None;
    let mut k: usize = 0;
    while k < cs.len()
        invariant
            cs@ == p@,
            k <= cs.len(),
            prefix@ == p@.take(k as int),
            start matches Some(s) ==> last_index_of(p@.take(k as int), c) matches Some(j) && s
                == encode_utf8(p@.take(j)).len(),
            start is None ==> last_index_of(p@.take(k as int), c) is None,
        decreases cs.len() - k,
    {
        let d = cs[k];
        assert(p@.take(k + 1).drop_last() =~= p@.take(k as int));
        if d == c {
            let off = prefix.as_str().as_bytes().len();
            assert(p@.take(k + 1).take(k as int) =~= p@.take(k as int));
            start = Some(off);
        } else {
            proof {
                let ghost j = last_index_of(p@.take(k as int), c);
                lemma_last_index_of(p@.take(k as int), c);
                if j is Some {
                    assert(p@.take(k + 1).take(j->0) =~= p@.take(j->0));
                }
            }
        }
        push_char(&mut prefix, d);
        assert(prefix@ =~= p@.take(k + 1));
        k = k + 1;
    }
    assert(p@.take(cs.len() as int) =~= p@);
    start
}

/// One run of the riddle on the question `question` and the password
/// `current`; `None` where the run cannot reach its end.
fn riddle_step(question: &str, current: &str, lucky: bool) -> (r: Option<(bool, String)>)
    ensures
        r is Some <==> riddle_defined(question@, current@),
        r matches Some((blue, np)) ==> blue == is_farnan(question@) && np@ == password_after(
            question@,
            current@,
            lucky,
        ),
{
    let splits = parser(question.to_owned());
    proof {
        lemma_split_on_nonempty(strip_punctuation(question@), ' ');
    }
    let ghost sp = words_of(question@);
    assert(splits@.len() == sp.len());
    if same_text(question, "farnan is great") {
        return Some((true, current.to_owned()));
    }
    let n = splits.len();
    assert(splits@[0]@ == sp[0]);
    let is0 = same_text(splits[0].as_str(), "is");
    let mut first_form = false;
    if is0 {
        if n < 2 {
            return None;
        }
        assert(splits@[1]@ == sp[1]);
        if same_text(splits[1].as_str(), "the") {
            if n < 3 {
                return None;
            }
            assert(splits@[2]@ == sp[2]);
            first_form = same_text(splits[2].as_str(), "password");
        }
    }
    let mut last_form = false;
    if is0 {
        assert(splits@[n - 2]@ == sp[n - 2]);
        assert(splits@[n - 1]@ == sp[n - 1]);
        last_form = same_text(splits[n - 2].as_str(), "the") && same_text(
            splits[n - 1].as_str(),
            "password",
        );
    }
    assert(first_form == asks_first_form(sp));
    assert(last_form == asks_last_form(sp));
    if !(first_form || last_form) {
        return Some((false, current.to_owned()));
    }
    let guess = match cut_guess(question, first_form, last_form) {
        Some(g) => g,
        None => {
            return None;
        },
    };
    let ghost g = guess@;
    let ghost p = current@;
    if current.unicode_len() == 0 {
        return Some((false, current.to_owned()));
    }
    if guess.as_str().unicode_len() == 0 {
        return None;
    }
    let first = guess.as_str().get_char(0);
    let start = last_offset_of(current, first);
    let s = match start {
        Some(s) => s,
        None => {
            return Some((false, current.to_owned()));
        },
    };
    let ghost k = last_index_of(p, g[0])->0;
    let glen = guess.as_str().as_bytes().len();
    let pn = current.as_bytes().len();
    let end = match s.checked_add(glen) {
        Some(e) => e,
        None => {
            return None;
        },
    };
    if end > pn || !current.is_char_boundary(end) {
        return None;
    }
    proof {
        lemma_last_index_of(p, g[0]);
        lemma_char_offset_is_boundary(p, k);
        lemma_boundary_in_prefix(encode_utf8(p), end as int, s as int);
    }
    let (head, _) = current.split_at(end);
    let (_, part) = head.split_at(s);
    proof {
        assert(part.spec_bytes() =~= encode_utf8(p).subrange(s as int, end as int));
        lemma_text_is_decoded_bytes(part);
    }
    if same_text(guess.as_str(), part) {
        Some((false, current.to_owned()))
    } else if lucky {
        Some((false, guess))
    } else {
        Some((false, current.to_owned()))
    }
}

/// Reacts to a line the player sent: "farnan is great" brings up the blue
/// screen (the result is `true`). A line whose words read "is the password
/// ..." or "is ... the password" is taken as a password guess, cut from the
/// line's bytes; the guess is compared with the part of the password that
/// starts at the last character equal to the guess's first one, and when
/// the two differ and `lucky` (the random draw) holds, the guess becomes
/// the password.
pub fn check_for_funny_values(question: &str, password: &mut Password, lucky: bool) -> (blue_screen: bool)
    requires
        riddle_defined(question@, old(password).val@),
    ensures
        blue_screen == is_farnan(question@),
        final(password).val@ == password_after(question@, old(password).val@, lucky),
{
    match riddle_step(question, password.val.as_str(), lucky) {
        Some((blue, np)) => {
            password.val = np;
            blue
        },
        None => false,
    }
}

/// Runs the password riddle where it can run to its end, and says so; where
/// it cannot (the game stops there), the result is `None` and the password
/// is left as it is.
pub fn check_for_funny_values_where_defined(question: &str, password: &mut Password, lucky: bool) -> (r: Option<bool>)
    ensures
        r is None <==> !riddle_defined(question@, old(password).val@),
        r is None ==> final(password).val@ == old(password).val@,
        r matches Some(blue) ==> blue == is_farnan(question@) && final(password).val@
            == password_after(question@, old(password).val@, lucky),
{
    match riddle_step(question, password.val.as_str(), false) {
        None => None,
        Some(_) => Some(check_for_funny_values(question, password, lucky)),
    }
}

} // verus!

