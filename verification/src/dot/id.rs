//! Graphviz identifiers: a strict subset of the DOT `ID` format, checked at
//! construction.

use vstd::prelude::*;

verus! {

use vstd::string::StrSliceExecFns;
use vstd::string::StringExecFns;
use crate::text::{dec_str, usize_to_string};

/// A letter or an underscore may start an identifier.
pub open spec fn spec_letter_or_underscore(c: char) -> bool {
    ||| ('a' as u32) <= (c as u32) && (c as u32) <= ('z' as u32)
    ||| ('A' as u32) <= (c as u32) && (c as u32) <= ('Z' as u32)
    ||| c == '_'
}

/// Any later character may also be a digit.
pub open spec fn spec_constituent(c: char) -> bool {
    spec_letter_or_underscore(c) || (('0' as u32) <= (c as u32) && (c as u32) <= ('9' as u32))
}

/// A valid identifier: non-empty, made of letters, digits and underscores,
/// not beginning with a digit.
pub open spec fn valid_id(s: Seq<char>) -> bool {
    &&& s.len() > 0
    &&& spec_letter_or_underscore(s[0])
    &&& forall|i: int| 1 <= i < s.len() ==> spec_constituent(#[trigger] s[i])
}

fn letter_or_underscore(c: char) -> (r: bool)
    ensures
        r == spec_letter_or_underscore(c),
{
    (('a' as u32) <= (c as u32) && (c as u32) <= ('z' as u32)) || (('A' as u32) <= (c as u32) && (c
        as u32) <= ('Z' as u32)) || c == '_'
}

fn constituent(c: char) -> (r: bool)
    ensures
        r == spec_constituent(c),
{
    letter_or_underscore(c) || (('0' as u32) <= (c as u32) && (c as u32) <= ('9' as u32))
}

/// A Graphviz `ID`.
#[derive(Clone, PartialEq, Eq, Debug)]
pub struct Id {
    name: String,
}

impl View for Id {
    type V = Seq<char>;

    closed spec fn view(&self) -> Seq<char> {
        self.name@
    }
}

impl Id {
    /// Creates an `Id` named `name` when the name is a valid identifier;
    /// a name containing spaces, brackets, quotes or the like is refused.
    pub fn new(name: &str) -> (r: Result<Id, ()>)
        ensures
            match r {
                Ok(id) => id@ == name@ && valid_id(name@),
                Err(_) => !valid_id(name@),
            },
    {
        let len = name.unicode_len();
        if len == 0 {
            return Err(());
        }
        if !letter_or_underscore(name.get_char(0)) {
            return Err(());
        }
        let mut i: usize = 1;
        while i < len
            invariant
                1 <= i <= len,
                len == name@.len(),
                forall|j: int| 1 <= j < i ==> spec_constituent(#[trigger] name@[j]),
            decreases len - i,
        {
            if !constituent(name.get_char(i)) {
                return Err(());
            }
            i += 1;
        }
        Ok(Id { name: name.to_owned() })
    }

    /// The identifier's text.
    pub fn as_slice(&self) -> (r: &str)
        ensures
            r@ == self@,
    {
        self.name.as_str()
    }

    /// The identifier's text, owned.
    pub fn name(self) -> (r: String)
        ensures
            r@ == self@,
    {
        self.name
    }
}

/// The name generated for the node of index `n`: the letter `N` followed by
/// the index in decimal.
pub open spec fn spec_id_name(n: nat) -> Seq<char> {
    "N"@ + dec_str(n)
}

/// The generated identifier of the node of index `n`.
pub fn id_name(n: usize) -> (r: Id)
    ensures
        r@ == spec_id_name(n as nat),
{
    let mut s = "N".to_owned();
    let digits = usize_to_string(n);
    s.append(digits.as_str());
    Id { name: s }
}

} // verus!
