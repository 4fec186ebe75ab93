//! Per-identifier challenge hashing.
//!
//! A challenge answer proves possession of the resource an identifier names:
//! the first line of the resource and the identifier are joined into a
//! plaintext `content:identifier`, hashed with SHA-1, and returned as forty
//! lowercase hex characters. A resource that cannot be read, or whose first
//! line is empty, yields the `Missing` sentinel instead; the two conditions
//! are deliberately not distinguished.

use vstd::prelude::*;
use vstd::string::StringExecFns;
use vstd::utf8::encode_utf8;
use crate::store::{ClaimStore, lookup};

verus! {

/// The digest that SHA-1 assigns to `bytes`: twenty bytes determined by the
/// input alone.
pub uninterp spec fn sha1_of(bytes: Seq<u8>) -> Seq<u8>;

/// Relies on `sha1::Sha1` through the `Digest` trait: `digest` produces the
/// 20-byte SHA-1 digest of the input, a function of the input bytes alone.
#[verifier::external_body]
fn sha1_digest(bytes: &[u8]) -> (r: Vec<u8>)
    ensures
        r@ == sha1_of(bytes@),
        r@.len() == 20,
{
    let digest = <sha1::Sha1 as sha1::Digest>::digest(bytes);
    digest.to_vec()
}

/// Relies on `String::push`: it appends the given character to the end of the
/// string.
#[verifier::external_body]
pub(crate) fn push_char(s: &mut String, c: char)
    ensures
        final(s)@ == old(s)@ + seq![c],
{
    s.push(c)
}

/// The lowercase hex digit for a value below sixteen.
pub open spec fn hex_digit(n: int) -> char {
    if n == 0 {
        '0'
    } else if n == 1 {
        '1'
    } else if n == 2 {
        '2'
    } else if n == 3 {
        '3'
    } else if n == 4 {
        '4'
    } else if n == 5 {
        '5'
    } else if n == 6 {
        '6'
    } else if n == 7 {
        '7'
    } else if n == 8 {
        '8'
    } else if n == 9 {
        '9'
    } else if n == 10 {
        'a'
    } else if n == 11 {
        'b'
    } else if n == 12 {
        'c'
    } else if n == 13 {
        'd'
    } else if n == 14 {
        'e'
    } else {
        'f'
    }
}

/// The lowercase hex encoding of a byte sequence: two digits per byte, high
/// digit first.
pub open spec fn hex_of(bytes: Seq<u8>) -> Seq<char>
    decreases bytes.len(),
{
    if bytes.len() == 0 {
        Seq::<char>::empty()
    } else {
        seq![
            hex_digit(bytes.first() as int / 16),
            hex_digit(bytes.first() as int % 16),
        ] + hex_of(bytes.drop_first())
    }
}

fn hex_digit_char(n: u8) -> (c: char)
    requires
        n < 16,
    ensures
        c == hex_digit(n as int),
{
    match n {
        0 => '0',
        1 => '1',
        2 => '2',
        3 => '3',
        4 => '4',
        5 => '5',
        6 => '6',
        7 => '7',
        8 => '8',
        9 => '9',
        10 => 'a',
        11 => 'b',
        12 => 'c',
        13 => 'd',
        14 => 'e',
        _ => 'f',
    }
}

/// Encodes `bytes` as lowercase hex, two digits per byte.
pub fn hex_encode(bytes: &Vec<u8>) -> (r: String)
    ensures
        r@ == hex_of(bytes@),
{
    let mut r = String::new();
    let n = bytes.len();
    let mut i: usize = 0;
    proof {
        assert(bytes@.skip(0) =~= bytes@);
    }
    while i < n
        invariant
            n == bytes@.len(),
            i <= n,
            hex_of(bytes@) =~= r@ + hex_of(bytes@.skip(i as int)),
        decreases n - i,
    {
        let b = bytes[i];
        proof {
            assert(bytes@.skip(i as int).first() == bytes@[i as int]);
            assert(bytes@.skip(i as int).drop_first() =~= bytes@.skip(i + 1));
        }
        push_char(&mut r, hex_digit_char(b / 16));
        push_char(&mut r, hex_digit_char(b % 16));
        i += 1;
    }
    proof {
        assert(bytes@.skip(n as int) =~= Seq::<u8>::empty());
        assert(r@ =~= hex_of(bytes@));
    }
    r
}

/// The outcome of one challenge: a hex digest, or the sentinel for a resource
/// that was unreadable or empty.
pub enum ChallengeResult {
    Digest(String),
    Missing,
}

/// The challenge plaintext for a resource's first line and its identifier.
pub open spec fn challenge_plaintext(content: Seq<char>, id: Seq<char>) -> Seq<char> {
    content + seq![':'] + id
}

/// The identifier `id` resolves to no usable claim content in `m`: the store
/// has no entry for it, or the recorded first line is empty.
pub open spec fn spec_missing(m: Seq<(Seq<char>, Seq<char>)>, id: Seq<char>) -> bool {
    match lookup(m, id) {
        None => true,
        Some(content) => content.len() == 0,
    }
}

/// The digest owed for `id` when it resolves: lowercase hex of the SHA-1 of
/// the UTF-8 encoding of `content:id`.
pub open spec fn spec_digest(m: Seq<(Seq<char>, Seq<char>)>, id: Seq<char>) -> Seq<char> {
    hex_of(sha1_of(encode_utf8(challenge_plaintext(lookup(m, id).unwrap(), id))))
}

impl ChallengeResult {
    /// The claim this result makes about identifier `id` under store `m`.
    pub open spec fn consistent_with(self, m: Seq<(Seq<char>, Seq<char>)>, id: Seq<char>) -> bool {
        match self {
            ChallengeResult::Missing => spec_missing(m, id),
            ChallengeResult::Digest(d) => !spec_missing(m, id) && d@ == spec_digest(m, id),
        }
    }
}

/// Computes the challenge result for one identifier: the digest of
/// `content:identifier` when the store resolves the identifier to a non-empty
/// first line, and `Missing` otherwise. Resource-access failure never
/// escapes; it is folded into `Missing`.
pub fn generate_challenge_hash(store: &ClaimStore, path: &String) -> (r: ChallengeResult)
    ensures
        r.consistent_with(store@, path@),
        r is Missing <==> spec_missing(store@, path@),
{
    match store.read_first_line(path) {
        None => ChallengeResult::Missing,
        Some(content) => {
            if content.as_str().is_empty() {
                ChallengeResult::Missing
            } else {
                proof {
                    reveal_strlit(":");
                }
                let plaintext = content.concat(":").concat(path.as_str());
                proof {
                    assert(plaintext@ =~= challenge_plaintext(lookup(store@, path@).unwrap(), path@));
                }
                let digest = sha1_digest(plaintext.as_str().as_bytes());
                ChallengeResult::Digest(hex_encode(&digest))
            }
        },
    }
}

} // verus!
