//! Names of the pipes that carry a session's bytes: a fixed namespace
//! prefix, a random lower-case alphanumeric suffix, and a terminating NUL,
//! as the wide string that the platform takes.
use vstd::prelude::*;

verus! {

/// The number of random characters in a pipe's name.
pub const PIPE_NAME_LEN: usize = 7;

/// The namespace that pipe names live in: `\\.\pipe\`.
pub open spec fn pipe_prefix() -> Seq<u8> {
    seq![92u8, 92u8, 46u8, 92u8, 112u8, 105u8, 112u8, 101u8, 92u8]
}

pub open spec fn is_ascii_alphanumeric(b: u8) -> bool {
    (48 <= b <= 57) || (65 <= b <= 90) || (97 <= b <= 122)
}

pub open spec fn ascii_lower(b: u8) -> u8 {
    if 65 <= b <= 90 {
        (b + 32) as u8
    } else {
        b
    }
}

/// The wide, NUL-terminated path of the pipe whose name is `suffix` in
/// lower case.
pub open spec fn pipe_path_spec(suffix: Seq<u8>) -> Seq<u16> {
    pipe_prefix().map_values(|c: u8| c as u16) + suffix.map_values(|b: u8| ascii_lower(b) as u16)
        + seq![0u16]
}

/// Relies on rand's `Alphanumeric` distribution, sampled with the thread's
/// generator: every byte it yields is one of `A-Z`, `a-z`, `0-9`.
#[verifier::external_body]
fn random_alphanumeric() -> (r: u8)
    ensures
        is_ascii_alphanumeric(r),
{
    rand::Rng::sample(&mut rand::rng(), rand::distr::Alphanumeric)
}

/// `b` in lower case, where it is an upper-case ASCII letter.
pub fn to_ascii_lower(b: u8) -> (r: u8)
    ensures
        r == ascii_lower(b),
{
    if 65 <= b && b <= 90 {
        b + 32
    } else {
        b
    }
}

/// The wide, NUL-terminated path of the pipe named `suffix` (in lower case).
pub fn pipe_path(suffix: &[u8]) -> (r: Vec<u16>)
    ensures
        r@ == pipe_path_spec(suffix@),
{
    let mut out: Vec<u16> = vec![92u16, 92u16, 46u16, 92u16, 112u16, 105u16, 112u16, 101u16, 92u16];
    assert(out@ =~= pipe_prefix().map_values(|c: u8| c as u16));
    let ghost start = out@;
    let mut i: usize = 0;
    while i < suffix.len()
        invariant
            i <= suffix@.len(),
            out@ == start + suffix@.subrange(0, i as int).map_values(
                |b: u8| ascii_lower(b) as u16,
            ),
        decreases suffix@.len() - i,
    {
        let c = to_ascii_lower(suffix[i]);
        out.push(c as u16);
        proof {
            assert(suffix@.subrange(0, i + 1) =~= suffix@.subrange(0, i as int).push(suffix@[i as int]));
        }
        i = i + 1;
        assert(out@ =~= start + suffix@.subrange(0, i as int).map_values(
            |b: u8| ascii_lower(b) as u16,
        ));
    }
    assert(suffix@.subrange(0, suffix@.len() as int) =~= suffix@);
    out.push(0u16);
    assert(out@ =~= pipe_path_spec(suffix@));
    out
}

/// `PIPE_NAME_LEN` random alphanumeric bytes.
pub fn random_pipe_suffix() -> (r: Vec<u8>)
    ensures
        r@.len() == PIPE_NAME_LEN,
        forall|i: int| 0 <= i < r@.len() ==> is_ascii_alphanumeric(#[trigger] r@[i]),
{
    let mut out: Vec<u8> = Vec::new();
    while out.len() < PIPE_NAME_LEN
        invariant
            out@.len() <= PIPE_NAME_LEN,
            forall|i: int| 0 <= i < out@.len() ==> is_ascii_alphanumeric(#[trigger] out@[i]),
        decreases PIPE_NAME_LEN - out@.len(),
    {
        out.push(random_alphanumeric());
    }
    out
}

/// The path of a fresh pipe: a random lower-case alphanumeric name of
/// `PIPE_NAME_LEN` characters in the pipe namespace, wide and NUL-terminated.
pub fn random_pipe_path() -> (r: Vec<u16>)
    ensures
        exists|s: Seq<u8>|
            s.len() == PIPE_NAME_LEN && (forall|i: int|
                0 <= i < s.len() ==> is_ascii_alphanumeric(#[trigger] s[i])) && r@
                == pipe_path_spec(s),
{
    let suffix = random_pipe_suffix();
    pipe_path(suffix.as_slice())
}

} // verus!
