//! Strings as vectors of characters.

use vstd::prelude::*;
use vstd::std_specs::iter::IteratorSpec;
use vstd::string::{axiom_spec_iter, next_postcondition};

verus! {

/// The characters of `s`, in order.
pub fn chars_of(s: &str) -> (chars: Vec<char>)
    ensures
        chars@ == s@,
{
    broadcast use {axiom_spec_iter, next_postcondition};

    let mut rest = s.chars();
    let mut chars: Vec<char> = Vec::new();
    loop
        invariant
            rest.obeys_prophetic_iter_laws(),
            rest.decrease() is Some,
            chars@ + rest.remaining() == s@,
        ensures
            chars@ == s@,
        decreases rest.decrease()->0,
    {
        let ghost before = rest.remaining();
        match rest.next() {
            Some(c) => {
                proof {
                    assert(chars@.push(c) + before.drop_first() =~= chars@ + before);
                }
                chars.push(c);
            },
            None => {
                proof {
                    assert(chars@ + before =~= chars@);
                }
                break ;
            },
        }
    }
    chars
}

} // verus!
