//! String facts shared by the menu and event logic: equality, building a
//! string character by character, and the menu-label mnemonic filter.

use vstd::prelude::*;

verus! {

/// `str` equality from std (`<str as PartialEq>::eq`): true exactly when
/// both strings hold the same characters.
#[verifier::external_body]
pub fn str_eq(a: &str, b: &str) -> (r: bool)
    ensures
        r == (a@ == b@),
{
    a == b
}

/// `String::push` from std: appends one character.
#[verifier::external_body]
fn string_push(s: &mut String, c: char)
    ensures
        final(s)@ == old(s)@.push(c),
{
    s.push(c)
}

/// The label with every `&` (a mnemonic marker) removed.
pub open spec fn without_mnemonics(text: Seq<char>) -> Seq<char>
    decreases text.len(),
{
    if text.len() == 0 {
        Seq::empty()
    } else if text.last() == '&' {
        without_mnemonics(text.drop_last())
    } else {
        without_mnemonics(text.drop_last()).push(text.last())
    }
}

/// Removes the mnemonic markers (`&`) from a menu label.
pub fn strip_mnemonics(text: &str) -> (r: String)
    ensures
        r@ == without_mnemonics(text@),
{
    let mut out = String::new();
    for c in it: text.chars()
        invariant
            it.seq() == text@,
            out@ == without_mnemonics(text@.take(it.index() as int)),
    {
        assert(text@.take(it.index() + 1).drop_last() == text@.take(it.index() as int));
        if c != '&' {
            string_push(&mut out, c);
        }
    }
    assert(text@.take(text@.len() as int) == text@);
    out
}

/// A label without mnemonics holds no `&`, and stripping it again changes
/// nothing.
pub proof fn lemma_stripped_label_is_clean(text: Seq<char>)
    ensures
        !without_mnemonics(text).contains('&'),
        without_mnemonics(without_mnemonics(text)) == without_mnemonics(text),
    decreases text.len(),
{
    if text.len() > 0 {
        lemma_stripped_label_is_clean(text.drop_last());
        let prev = without_mnemonics(text.drop_last());
        if text.last() != '&' {
            let cur = prev.push(text.last());
            assert forall|i: int| 0 <= i < cur.len() implies cur[i] != '&' by {
                if i < prev.len() {
                    assert(cur[i] == prev[i]);
                }
            }
            assert(cur.drop_last() =~= prev);
        }
    }
}

/// Stripping mnemonics removes exactly the `&` characters and keeps every
/// other character, in order.
pub proof fn lemma_strip_removes_only_ampersands(text: Seq<char>)
    ensures
        without_mnemonics(text) == text.filter(|c: char| c != '&'),
    decreases text.len(),
{
    reveal(Seq::filter);
    if text.len() > 0 {
        lemma_strip_removes_only_ampersands(text.drop_last());
    }
}

/// Stripping commutes with appending: a character other than `&` is kept
/// at the end, an `&` is dropped, and the empty label stays empty.
pub proof fn lemma_strip_appended_char(text: Seq<char>, c: char)
    ensures
        without_mnemonics(Seq::<char>::empty()) == Seq::<char>::empty(),
        c != '&' ==> without_mnemonics(text.push(c)) == without_mnemonics(text).push(c),
        without_mnemonics(text.push('&')) == without_mnemonics(text),
        without_mnemonics(text).len() + text.filter(|x: char| x == '&').len() == text.len(),
    decreases text.len(),
{
    assert(text.push(c).drop_last() =~= text);
    assert(text.push('&').drop_last() =~= text);
    reveal(Seq::filter);
    if text.len() > 0 {
        lemma_strip_appended_char(text.drop_last(), c);
    }
}

/// The value of a string of ASCII decimal digits.
pub open spec fn decimal_value(digits: Seq<char>) -> int
    decreases digits.len(),
{
    if digits.len() == 0 {
        0
    } else {
        10 * decimal_value(digits.drop_last()) + (digits.last() as int - '0' as int)
    }
}

/// Every character is an ASCII decimal digit.
pub open spec fn all_ascii_digits(s: Seq<char>) -> bool {
    forall|i: int| 0 <= i < s.len() ==> '0' <= #[trigger] s[i] <= '9'
}

/// The text after an optional leading `+`.
pub open spec fn unsigned_digits(s: Seq<char>) -> Seq<char> {
    if s.len() > 0 && s[0] == '+' {
        s.drop_first()
    } else {
        s
    }
}

/// What `str::parse::<usize>` accepts: an optional `+` followed by one or
/// more ASCII digits whose value fits in `usize`.
pub open spec fn parsed_usize(s: Seq<char>) -> Option<usize> {
    let d = unsigned_digits(s);
    if d.len() > 0 && all_ascii_digits(d) && decimal_value(d) <= usize::MAX {
        Some(decimal_value(d) as usize)
    } else {
        None
    }
}

/// `str::parse::<usize>` from std (`<usize as FromStr>::from_str`), with
/// the error dropped. Its documentation: an optional `+` sign followed by
/// digits only; anything else, an empty string or an overflow is an error.
#[verifier::external_body]
pub fn parse_usize(s: &str) -> (r: Option<usize>)
    ensures
        r == parsed_usize(s@),
{
    s.parse::<usize>().ok()
}

} // verus!
