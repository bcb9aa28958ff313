//! Authorization-header parsing.
//!
//! The admission surface authenticates callers by a bearer token; the
//! only logic in that check is slicing the token out of the header
//! value, which is done here.  Comparing the token against the
//! configured credential is a plain equality the embedding program
//! performs.

use vstd::prelude::*;
use vstd::string::StrSliceExecFns;

verus! {

/// The scheme prefix of a bearer authorization header.
pub open spec fn spec_bearer_prefix() -> Seq<char> {
    "Bearer "@
}

/// Whether `h` starts with the bearer scheme.
pub open spec fn spec_has_bearer_prefix(h: Seq<char>) -> bool {
    h.len() >= 7 && h.subrange(0, 7) == spec_bearer_prefix()
}

/// The token of a `Bearer <token>` authorization header, or `None`
/// when the value does not carry the bearer scheme.
pub fn bearer_token<'a>(auth: &'a str) -> (r: Option<&'a str>)
    ensures
        match r {
            Some(t) => spec_has_bearer_prefix(auth@) && t@ == auth@.subrange(
                7,
                auth@.len() as int,
            ),
            None => !spec_has_bearer_prefix(auth@),
        },
{
    proof {
        reveal_strlit("Bearer ");
    }
    let n = auth.unicode_len();
    if n < 7 {
        return None;
    }
    if auth.get_char(0) == 'B' && auth.get_char(1) == 'e' && auth.get_char(2) == 'a'
        && auth.get_char(3) == 'r' && auth.get_char(4) == 'e' && auth.get_char(5) == 'r'
        && auth.get_char(6) == ' ' {
        proof {
            assert(auth@.subrange(0, 7) =~= spec_bearer_prefix());
        }
        Some(auth.substring_char(7, n))
    } else {
        proof {
            assert(auth@.subrange(0, 7) != spec_bearer_prefix()) by {
                if auth@.subrange(0, 7) == spec_bearer_prefix() {
                    assert(auth@.subrange(0, 7)[0] == auth@[0]);
                    assert(auth@.subrange(0, 7)[1] == auth@[1]);
                    assert(auth@.subrange(0, 7)[2] == auth@[2]);
                    assert(auth@.subrange(0, 7)[3] == auth@[3]);
                    assert(auth@.subrange(0, 7)[4] == auth@[4]);
                    assert(auth@.subrange(0, 7)[5] == auth@[5]);
                    assert(auth@.subrange(0, 7)[6] == auth@[6]);
                }
            }
        }
        None
    }
}

} // verus!
