//! What the page needs of text: whether one text occurs in another and where, the order of
//! two texts, and editing at the end of a text.
//!
//! Each of the five functions marked `external_body` holds one call of the standard library
//! and states what its documentation says; they are not verified. The rest is proved.

use vstd::prelude::*;

verus! {

/// `part` stands in `text` at the place `at`.
pub open spec fn occurs_at(text: Seq<char>, part: Seq<char>, at: int) -> bool {
    &&& 0 <= at
    &&& at + part.len() <= text.len()
    &&& text.subrange(at, at + part.len()) == part
}

/// `part` stands somewhere in `text`.
pub open spec fn occurs(text: Seq<char>, part: Seq<char>) -> bool {
    exists|at: int| occurs_at(text, part, at)
}

/// `text` is cut at the first place where `part` stands in it: `before`, then `part`, then
/// `after`.
pub open spec fn cut_at_first(
    text: Seq<char>,
    part: Seq<char>,
    before: Seq<char>,
    after: Seq<char>,
) -> bool {
    &&& text == before + part + after
    &&& forall|at: int| 0 <= at < before.len() ==> !occurs_at(text, part, at)
}

/// The order of texts: character by character, a character with the smaller code first, and a
/// text before every longer one that starts with it.
pub open spec fn text_less(a: Seq<char>, b: Seq<char>) -> bool
    decreases a.len(),
{
    if b.len() == 0 {
        false
    } else if a.len() == 0 {
        true
    } else if a[0] != b[0] {
        (a[0] as int) < (b[0] as int)
    } else {
        text_less(a.drop_first(), b.drop_first())
    }
}

/// No text stands before itself.
pub proof fn lemma_text_less_irreflexive(a: Seq<char>)
    ensures
        !text_less(a, a),
    decreases a.len(),
{
    if a.len() > 0 {
        lemma_text_less_irreflexive(a.drop_first());
    }
}

/// Of two different texts, one stands before the other.
pub proof fn lemma_text_less_total(a: Seq<char>, b: Seq<char>)
    ensures
        a == b || text_less(a, b) || text_less(b, a),
    decreases a.len(),
{
    if a.len() > 0 && b.len() > 0 && a[0] == b[0] {
        lemma_text_less_total(a.drop_first(), b.drop_first());
        if a.drop_first() == b.drop_first() {
            assert(a =~= seq![a[0]] + a.drop_first());
            assert(b =~= seq![b[0]] + b.drop_first());
        }
    } else if a.len() == 0 && b.len() == 0 {
        assert(a =~= b);
    }
}

/// Two texts never stand before each other.
pub proof fn lemma_text_less_asymmetric(a: Seq<char>, b: Seq<char>)
    ensures
        !(text_less(a, b) && text_less(b, a)),
    decreases a.len(),
{
    if a.len() > 0 && b.len() > 0 && a[0] == b[0] {
        lemma_text_less_asymmetric(a.drop_first(), b.drop_first());
    }
}

/// The order of texts is transitive.
pub proof fn lemma_text_less_transitive(a: Seq<char>, b: Seq<char>, c: Seq<char>)
    requires
        text_less(a, b),
        text_less(b, c),
    ensures
        text_less(a, c),
    decreases a.len(),
{
    if a.len() > 0 && a[0] == b[0] && b[0] == c[0] {
        lemma_text_less_transitive(a.drop_first(), b.drop_first(), c.drop_first());
    }
}

/// `str::contains` with a text as the pattern: whether `part` stands somewhere in `text`.
#[verifier::external_body]
pub(crate) fn str_contains(text: &str, part: &str) -> (found: bool)
    ensures
        found == occurs(text@, part@),
{
    text.contains(part)
}

/// `str::split_once` with a text as the pattern: what stands before and after the first place
/// where `part` stands in `text`, or `None` where it stands nowhere.
#[verifier::external_body]
pub(crate) fn str_split_once<'a>(text: &'a str, part: &str) -> (cut: Option<(&'a str, &'a str)>)
    ensures
        match cut {
            Some((before, after)) => cut_at_first(text@, part@, before@, after@),
            None => !occurs(text@, part@),
        },
{
    text.split_once(part)
}

/// `<` on `str`: whether `a` stands before `b` in the order of texts.
#[verifier::external_body]
pub(crate) fn str_less(a: &str, b: &str) -> (less: bool)
    ensures
        less == text_less(a@, b@),
{
    a < b
}

/// `String::push`: `c` is put at the end of `text`.
#[verifier::external_body]
pub(crate) fn string_push(text: &mut String, c: char)
    ensures
        final(text)@ == old(text)@.push(c),
{
    text.push(c)
}

/// `String::pop`: the last character is taken off `text` and handed back, if there is one.
#[verifier::external_body]
pub(crate) fn string_pop(text: &mut String) -> (last: Option<char>)
    ensures
        match last {
            Some(c) => old(text)@.len() > 0 && c == old(text)@.last() && final(text)@ == old(
                text,
            )@.drop_last(),
            None => old(text)@.len() == 0 && final(text)@ == old(text)@,
        },
{
    text.pop()
}

} // verus!
