//! What the server says of itself, and what it is asked to roll.

use vstd::prelude::*;

verus! {

/// What `dice.roll` is asked.
#[derive(Debug, Clone, PartialEq, Eq)]
pub struct DiceRollParams {
    /// A die such as `d20`, several dice such as `3d6`, or a range such as `11-43`.
    pub spec: String,
}

/// How the server is reached.
#[derive(Debug, Clone, Copy, PartialEq, Eq, Structural)]
pub enum Transport {
    Stdio,
    Http,
}

impl Transport {
    /// The name for it.
    pub open spec fn text(self) -> Seq<char> {
        match self {
            Transport::Stdio => "stdio"@,
            Transport::Http => "http"@,
        }
    }

    /// The name for it.
    pub fn as_str(&self) -> (r: &'static str)
        ensures
            r@ == self.text(),
    {
        match self {
            Transport::Stdio => "stdio",
            Transport::Http => "http",
        }
    }
}

} // verus!
