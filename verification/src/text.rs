//! Shared string helpers: list rendering used by the query builders and
//! small trusted wrappers around `String` operations that vstd leaves
//! unspecified.

use vstd::prelude::*;

verus! {

/// The elements of `items` in order, each followed by `", "`.
pub open spec fn comma_list(items: Seq<Seq<char>>) -> Seq<char>
    decreases items.len(),
{
    if items.len() == 0 {
        Seq::empty()
    } else {
        comma_list(items.drop_last()) + items.last() + ", "@
    }
}

/// `s` without its last two characters; empty when `s` has fewer than two.
pub open spec fn drop_two(s: Seq<char>) -> Seq<char> {
    if s.len() >= 2 {
        s.take(s.len() - 2)
    } else {
        Seq::empty()
    }
}

/// Extending a prefix of `items` by one element extends its rendering by
/// that element and a separator.
pub proof fn lemma_comma_list_step(items: Seq<Seq<char>>, i: int)
    requires
        0 <= i < items.len(),
    ensures
        comma_list(items.take(i + 1)) == comma_list(items.take(i)) + items[i] + ", "@,
{
    assert(items.take(i + 1).drop_last() =~= items.take(i));
    assert(items.take(i + 1).last() == items[i]);
}

/// Removing the last two characters one at a time gives `drop_two`.
pub proof fn lemma_drop_last_twice(s: Seq<char>)
    requires
        s.len() >= 2,
    ensures
        s.drop_last().drop_last() == drop_two(s),
{
    assert(s.drop_last().drop_last() =~= drop_two(s));
}

/// Removes the last two characters of `s`, one `pop` at a time.
pub fn pop_two(s: &mut String)
    ensures
        final(s)@ == drop_two(old(s)@),
{
    pop_char(s);
    pop_char(s);
    proof {
        if old(s)@.len() >= 2 {
            lemma_drop_last_twice(old(s)@);
        } else {
            assert(s@ =~= Seq::<char>::empty());
        }
    }
}

/// Relies on `String::pop`: removes the last character of the string and
/// returns it, or returns `None` and leaves the string alone when it is empty.
#[verifier::external_body]
pub fn pop_char(s: &mut String) -> (r: Option<char>)
    ensures
        old(s)@.len() == 0 ==> final(s)@ == old(s)@ && r is None,
        old(s)@.len() > 0 ==> final(s)@ == old(s)@.drop_last() && r == Some(old(s)@.last()),
{
    s.pop()
}

/// Relies on `String::push`: appends one character at the end.
#[verifier::external_body]
pub fn push_char(s: &mut String, c: char)
    ensures
        final(s)@ == old(s)@.push(c),
{
    s.push(c)
}

/// The character for one decimal digit.
pub open spec fn dec_digit_char(d: nat) -> char {
    if d == 0 {
        '0'
    } else if d == 1 {
        '1'
    } else if d == 2 {
        '2'
    } else if d == 3 {
        '3'
    } else if d == 4 {
        '4'
    } else if d == 5 {
        '5'
    } else if d == 6 {
        '6'
    } else if d == 7 {
        '7'
    } else if d == 8 {
        '8'
    } else {
        '9'
    }
}

/// The decimal digits of `n`, most significant first, with no leading zeros
/// (a single `'0'` for zero).
pub open spec fn dec_digits(n: nat) -> Seq<char>
    decreases n,
{
    if n < 10 {
        seq![dec_digit_char(n)]
    } else {
        dec_digits(n / 10) + seq![dec_digit_char(n % 10)]
    }
}

/// The decimal rendering of a signed number: a `'-'` prefix when negative.
pub open spec fn dec_int(n: int) -> Seq<char> {
    if n < 0 {
        seq!['-'] + dec_digits((-n) as nat)
    } else {
        dec_digits(n as nat)
    }
}

/// Relies on `i32`'s `Display` implementation: the shortest decimal
/// representation of the value, prefixed with `'-'` when it is negative.
#[verifier::external_body]
pub fn i32_to_string(n: i32) -> (r: String)
    ensures
        r@ == dec_int(n as int),
{
    n.to_string()
}

} // verus!
