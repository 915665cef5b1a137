//! The text that an application prints of its users: one line for each, with
//! its position in the listing.

use vstd::prelude::*;
use vstd::string::StringExecFns;
use crate::example04::user::User;
use crate::roster::names_of_borrowed;

verus! {

/// The character of a decimal digit.
pub open spec fn digit(d: nat) -> char
    recommends
        d < 10,
{
    if d == 0 {
        '0'
    } else if d == 1 {
        '1'
    } else if d == 2 {
        '2'
    } else if d == 3 {
        '3'
    } else if d == 4 {
        '4'
    } else if d == 5 {
        '5'
    } else if d == 6 {
        '6'
    } else if d == 7 {
        '7'
    } else if d == 8 {
        '8'
    } else {
        '9'
    }
}

/// A number in decimal, without sign or leading zeros.
pub open spec fn decimal(n: nat) -> Seq<char>
    decreases n,
{
    if n < 10 {
        seq![digit(n)]
    } else {
        decimal(n / 10).push(digit(n % 10))
    }
}

/// A string as the `Debug` formatting of `str` writes it: between double
/// quotes, with the characters that need it escaped.
pub uninterp spec fn quoted(text: Seq<char>) -> Seq<char>;

/// The line for the user at position `index`, given its name as `Debug`
/// writes it.
pub open spec fn line(index: nat, quoted_name: Seq<char>) -> Seq<char> {
    "User "@ + decimal(index) + ": User { name: "@ + quoted_name + " }\n"@
}

/// The lines for the users of these names, in their order, counted from 0.
pub open spec fn listing_text(names: Seq<Seq<char>>) -> Seq<char>
    decreases names.len(),
{
    if names.len() == 0 {
        Seq::<char>::empty()
    } else {
        listing_text(names.drop_last()) + line(
            (names.len() - 1) as nat,
            quoted(names.last()),
        )
    }
}

/// Formats `text` with `<str as core::fmt::Debug>::fmt`, through
/// `format!("{:?}", ..)`. Not proved: that the result is what that formatting
/// writes for `text`. It depends on `text` alone, and is known here by the
/// name `quoted` and no further.
#[verifier::external_body]
fn quote(text: &str) -> (q: String)
    ensures
        q@ == quoted(text@),
{
    format!("{:?}", text)
}

fn digit_text(d: usize) -> (text: &'static str)
    requires
        d < 10,
    ensures
        text@ == seq![digit(d as nat)],
{
    proof {
        reveal_strlit("0");
        reveal_strlit("1");
        reveal_strlit("2");
        reveal_strlit("3");
        reveal_strlit("4");
        reveal_strlit("5");
        reveal_strlit("6");
        reveal_strlit("7");
        reveal_strlit("8");
        reveal_strlit("9");
    }
    let text = if d == 0 {
        "0"
    } else if d == 1 {
        "1"
    } else if d == 2 {
        "2"
    } else if d == 3 {
        "3"
    } else if d == 4 {
        "4"
    } else if d == 5 {
        "5"
    } else if d == 6 {
        "6"
    } else if d == 7 {
        "7"
    } else if d == 8 {
        "8"
    } else {
        "9"
    };
    assert(text@ =~= seq![digit(d as nat)]);
    text
}

/// Writes `n` in decimal.
pub fn decimal_string(n: usize) -> (text: String)
    ensures
        text@ == decimal(n as nat),
    decreases n,
{
    let last = digit_text(n % 10);
    if n < 10 {
        String::from_str(last)
    } else {
        let mut text = decimal_string(n / 10);
        text.append(last);
        assert(text@ =~= decimal(n as nat));
        text
    }
}

/// Writes the line for the user at position `index`, whose name, as `Debug`
/// writes it, is `quoted_name`.
pub fn user_line(index: usize, quoted_name: &str) -> (text: String)
    ensures
        text@ == line(index as nat, quoted_name@),
{
    let mut text = String::from_str("User ");
    let number = decimal_string(index);
    text.append(number.as_str());
    text.append(": User { name: ");
    text.append(quoted_name);
    text.append(" }\n");
    text
}

/// Writes the lines for `users`, in their order, counted from 0.
pub fn render(users: &Vec<&User>) -> (text: String)
    ensures
        text@ == listing_text(names_of_borrowed(users@)),
{
    let ghost names = names_of_borrowed(users@);
    let mut text = String::new();
    let mut i: usize = 0;
    while i < users.len()
        invariant
            names == names_of_borrowed(users@),
            i <= users.len(),
            text@ == listing_text(names.take(i as int)),
        decreases users.len() - i,
    {
        let quoted_name = quote(users[i].name.as_str());
        let next = user_line(i, quoted_name.as_str());
        text.append(next.as_str());
        proof {
            let upto = names.take(i + 1);
            assert(upto.drop_last() =~= names.take(i as int));
            assert(upto.last() == users@[i as int]@);
        }
        i = i + 1;
    }
    assert(names.take(i as int) =~= names);
    text
}

} // verus!
