//! The greeting that the demo server answers with.

use vstd::prelude::*;
use vstd::string::StringExecFns;

verus! {

/// The greeting for `name`, character by character.
pub open spec fn greeting_text(name: Seq<char>) -> Seq<char> {
    "Hello, "@ + name + "!"@
}

/// Greets `name`.
pub fn greeting(name: &str) -> (text: String)
    ensures
        text@ == greeting_text(name@),
{
    let mut text = String::from_str("Hello, ");
    text.append(name);
    text.append("!");
    text
}

} // verus!
