//! Drawing fresh session names.

use crate::error::RelayError;
use crate::state::{names_of, position};
use vstd::prelude::*;
use vstd::string::is_ascii;

verus! {

/// The alphabet of session names.
pub const CHARSET: &'static str = "ABCDEFGHIJKLMNOPQRSTUVWXYZabcdefghijklmnopqrstuvwxyz0123456789";

/// How many names are drawn before the search for a free one is given up.
pub const MAX_ATTEMPTS: usize = 1024;

/// Whether `c` is a letter `A` to `Z` or `a` to `z`, or a digit.
pub open spec fn is_alphanumeric(c: char) -> bool {
    ('A' <= c && c <= 'Z') || ('a' <= c && c <= 'z') || ('0' <= c && c <= '9')
}

/// Whether `name` has the shape of a session name of length `len`: exactly
/// `len` characters, each of them alphanumeric.
pub open spec fn is_session_name(name: Seq<char>, len: nat) -> bool {
    &&& name.len() == len
    &&& forall|i: int| 0 <= i < name.len() ==> is_alphanumeric(#[trigger] name[i])
}

/// Every character of the alphabet is alphanumeric and ASCII, and the
/// alphabet is not empty.
pub proof fn lemma_charset()
    ensures
        CHARSET@.len() == 62,
        is_ascii(CHARSET),
        forall|c: char| CHARSET@.contains(c) ==> is_alphanumeric(c),
{
    reveal_strlit("ABCDEFGHIJKLMNOPQRSTUVWXYZabcdefghijklmnopqrstuvwxyz0123456789");
}

/// Wraps `random_string::generate`: a string of `length` characters, each
/// drawn from `charset`. Which ones is left to chance. An empty `charset`
/// makes the outside function panic and is ruled out.
#[verifier::external_body]
fn draw(length: usize, charset: &str) -> (s: String)
    requires
        charset@.len() > 0,
        is_ascii(charset),
        length <= isize::MAX,
    ensures
        s@.len() == length,
        forall|i: int| 0 <= i < s@.len() ==> charset@.contains(#[trigger] s@[i]),
{
    random_string::generate(length, charset)
}

/// Whether `candidate` is none of `namespaces`.
pub fn is_free(namespaces: &Vec<String>, candidate: &String) -> (free: bool)
    ensures
        free == !names_of(namespaces@).contains(candidate@),
{
    position(namespaces, candidate).is_none()
}

/// Draws a session name of `len` alphanumeric characters that is none of
/// `namespaces`.
///
/// Names are drawn at random until one is free, at most [`MAX_ATTEMPTS`]
/// times. The search can only fail where an active name has the very shape
/// that is drawn; with no such name the first draw is free.
///
/// The caller records the name in the registry before handing it to anyone,
/// under the lock under which the snapshot was taken.
pub fn create_random_namespace(namespaces: &Vec<String>, len: usize) -> (r: Result<
    String,
    RelayError,
>)
    requires
        len <= isize::MAX,
    ensures
        match r {
            Ok(name) => is_session_name(name@, len as nat) && !names_of(namespaces@).contains(
                name@,
            ),
            Err(e) => e == RelayError::SessionIdExhausted && exists|k: int|
                0 <= k < namespaces.len() && is_session_name(
                    #[trigger] names_of(namespaces@)[k],
                    len as nat,
                ),
        },
{
    let mut attempt: usize = 0;
    while attempt < MAX_ATTEMPTS
        invariant
            len <= isize::MAX,
            attempt <= MAX_ATTEMPTS,
            attempt > 0 ==> exists|k: int|
                0 <= k < namespaces.len() && is_session_name(
                    #[trigger] names_of(namespaces@)[k],
                    len as nat,
                ),
        decreases MAX_ATTEMPTS - attempt,
    {
        proof {
            lemma_charset();
        }
        let candidate = draw(len, CHARSET);
        if is_free(namespaces, &candidate) {
            return Ok(candidate);
        }
        attempt += 1;
    }
    Err(RelayError::SessionIdExhausted)
}

} // verus!
