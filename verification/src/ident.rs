//! Drawing identifiers.
//!
//! An identifier is `ID_LENGTH` characters from an alphabet of 64 that needs no
//! escaping in a URL. Identifiers come from the random source of the operating
//! system, and one is handed out only after the store has been asked whether
//! it already holds it. A source that answers with an error is reported as a
//! failure and not asked again. Early after boot the operating system may
//! keep a call waiting until its generator is seeded; the call then returns.

use vstd::prelude::*;
use crate::config::ID_LENGTH;
use crate::error::Error;
use crate::model::holds;
use crate::store::Store;

verus! {

/// Whether `c` is a letter or digit of ASCII, `_` or `-`.
pub open spec fn is_url_safe(c: char) -> bool {
    ||| 'a' <= c <= 'z'
    ||| 'A' <= c <= 'Z'
    ||| '0' <= c <= '9'
    ||| c == '_'
    ||| c == '-'
}

/// Whether `s` has the length and the alphabet of an identifier.
pub open spec fn is_identifier(s: Seq<char>) -> bool {
    s.len() == ID_LENGTH && forall|i: int| 0 <= i < s.len() ==> is_url_safe(#[trigger] s[i])
}

/// What becomes of one drawn candidate.
#[derive(Debug, PartialEq, Eq)]
pub enum Outcome {
    /// The store holds no entry under the candidate: it is the identifier.
    Accepted(String),
    /// The candidate is already held: another one is to be drawn.
    Retry,
    /// No identifier will come of this: the source gave nothing.
    Failed(Error),
}

/// Fills `buf` from the operating system's random source and says whether
/// that worked.
///
/// Not verified. The body calls `getrandom::getrandom` on the buffer as a
/// slice and hands on whether it returned `Ok`. The contract claims only that
/// the buffer keeps its length, which holds of any slice. Whether the source
/// has bytes to give is decided outside: nothing is claimed of the answer, nor
/// of what the buffer holds afterwards.
#[verifier::external_body]
fn fill_random(buf: &mut Vec<u8>) -> (filled: bool)
    ensures
        final(buf)@.len() == old(buf)@.len(),
{
    getrandom::getrandom(buf.as_mut_slice()).is_ok()
}

/// The byte source that identifiers are formatted from: `n` bytes from the
/// operating system.
///
/// The caller of a byte source takes bytes and nothing else, so the answer of
/// `fill_random` has nowhere to go from here and the bytes stay zero where it
/// fails. `draw` asks the source itself, before and after, and hands nothing
/// out unless it answered both times.
fn random_bytes(n: usize) -> (bytes: Vec<u8>)
    ensures
        bytes@.len() == n,
{
    let mut bytes: Vec<u8> = vec![0u8; n];
    let _ = fill_random(&mut bytes);
    bytes
}

/// Formats `size` characters from the bytes of `random_bytes`.
///
/// Not verified. The body calls `nanoid::format` with `random_bytes` as the
/// byte source and `nanoid::alphabet::SAFE` as the alphabet. That alphabet is
/// the 64 characters of `is_url_safe`, so every byte selects one of them, and
/// `format` returns once it has pushed `size`; this is all the contract
/// claims. Which characters come is left open, so two calls may or may not
/// agree. `format` would loop forever on `size == 0` and computes `8 * size`,
/// hence the two bounds.
#[verifier::external_body]
fn format_id(size: usize) -> (id: String)
    requires
        0 < size,
        8 * size <= usize::MAX,
    ensures
        id@.len() == size,
        forall|i: int| 0 <= i < id@.len() ==> is_url_safe(#[trigger] id@[i]),
{
    nanoid::format(random_bytes, &nanoid::alphabet::SAFE, size)
}

/// Draws one candidate, or nothing where the random source has no bytes to
/// give.
///
/// The source is asked for one byte before the candidate is formatted and for
/// one after it. A failure on either side comes back as `None`, and the
/// candidate formatted in between is dropped.
fn draw() -> (drawn: Option<String>)
    ensures
        drawn matches Some(id) ==> is_identifier(id@),
{
    let mut probe: Vec<u8> = vec![0u8; 1];
    if !fill_random(&mut probe) {
        return None;
    }
    let id = format_id(ID_LENGTH);
    if fill_random(&mut probe) {
        Some(id)
    } else {
        None
    }
}

/// Decides what follows from one draw.
///
/// A draw that brought nothing ends the attempt at once: the source is not
/// asked again. A candidate that the store does not hold is accepted. One that
/// it holds is drawn again, however many were drawn before.
pub fn decide(store: &Store, drawn: Option<String>) -> (outcome: Outcome)
    ensures
        outcome == match drawn {
            None => Outcome::Failed(Error::EntropyUnavailable),
            Some(candidate) => if holds(store@, candidate@) {
                Outcome::Retry
            } else {
                Outcome::Accepted(candidate)
            },
        },
{
    match drawn {
        None => Outcome::Failed(Error::EntropyUnavailable),
        Some(candidate) => if store.contains(candidate.as_str()) {
            Outcome::Retry
        } else {
            Outcome::Accepted(candidate)
        },
    }
}

/// An identifier under which `store` holds no entry.
///
/// Draws a candidate and does what `decide` says, again and again while that
/// is `Retry`. So the call fails where the random source gives nothing, and
/// in no other case that a run can reach: the draws are counted in 64 bits
/// only so that the loop is seen to end, and the count would have to run out
/// for the last line to be reached.
pub fn generate(store: &Store) -> (drawn: Result<String, Error>)
    ensures
        match drawn {
            Ok(id) => is_identifier(id@) && !holds(store@, id@),
            Err(e) => e == Error::EntropyUnavailable,
        },
{
    let mut draws: u64 = 0;
    while draws < u64::MAX
        decreases u64::MAX - draws,
    {
        match decide(store, draw()) {
            Outcome::Accepted(id) => {
                return Ok(id);
            },
            Outcome::Failed(e) => {
                return Err(e);
            },
            Outcome::Retry => {
                draws += 1;
            },
        }
    }
    Err(Error::EntropyUnavailable)
}

} // verus!
