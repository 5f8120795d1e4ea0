//! The greeting that needs no arguments.

use vstd::prelude::*;
use vstd::string::*;
use crate::greeting::greeting_text;

verus! {

/// Greets the world: the greeting that the name `world` gets.
pub fn get_greeting() -> (greeting: String)
    ensures
        greeting@ == "Hello, world!"@,
        greeting@ == greeting_text("world"@),
{
    proof {
        reveal_strlit("Hello, world!");
        reveal_strlit("Hello, ");
        reveal_strlit("world");
        reveal_strlit("!");
        assert("Hello, world!"@ =~= "Hello, "@ + "world"@ + "!"@);
    }
    String::from_str("Hello, world!")
}

} // verus!
