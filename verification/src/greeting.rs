//! The greeting and the arguments it is made from.

use vstd::prelude::*;
use vstd::string::*;

verus! {

/// The position on the command line at which the name is expected.
pub const NAME_POSITION: u32 = 1;

/// Why no greeting can be made.
#[derive(Debug)]
pub enum Errors {
    /// No name was given; the number is the position at which one was
    /// expected.
    NoArguments(u32),
}

/// What the program was asked to greet.
#[derive(Debug)]
pub struct Arguments {
    pub name: String,
}

/// The text of the greeting for `name`.
pub open spec fn greeting_text(name: Seq<char>) -> Seq<char> {
    "Hello, "@ + name + "!"@
}

impl Arguments {
    /// Arguments with an empty name.
    pub fn new() -> (args: Self)
        ensures
            args.name@ == Seq::<char>::empty(),
    {
        Arguments { name: String::new() }
    }

    /// Arguments with a copy of `name`.
    pub fn from(name: &str) -> (args: Self)
        ensures
            args.name@ == name@,
    {
        Arguments { name: name.to_owned() }
    }

    /// Arguments that take over `name`.
    pub fn create(name: String) -> (args: Self)
        ensures
            args.name == name,
    {
        Arguments { name }
    }
}

impl Default for Arguments {
    fn default() -> (args: Self)
        ensures
            args.name@ == Seq::<char>::empty(),
    {
        Arguments::new()
    }
}

/// Greets the name in `args`.
pub fn get_greeting(args: Arguments) -> (greeting: String)
    ensures
        greeting@ == greeting_text(args.name@),
{
    String::from_str("Hello, ").concat(args.name.as_str()).concat("!")
}

/// Greets the name in `args`, or reports that there is none to greet.
pub fn greet(args: Arguments) -> (outcome: Result<String, Errors>)
    ensures
        match outcome {
            Ok(greeting) => args.name@.len() > 0 && greeting@ == greeting_text(args.name@),
            Err(Errors::NoArguments(position)) => args.name@.len() == 0 && position
                == NAME_POSITION,
        },
{
    if args.name.as_str().is_empty() {
        Err(Errors::NoArguments(NAME_POSITION))
    } else {
        Ok(get_greeting(args))
    }
}

} // verus!
