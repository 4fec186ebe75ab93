//! Assembling the response for one request.
//!
//! The per-identifier challenge results are computed in request order. When
//! every identifier resolves, the response is the digests joined with `;` in
//! that order. When the identifier list is empty, or any identifier fails to
//! resolve, the whole response is replaced by a freshly drawn random
//! alphanumeric string of sixteen characters: the response then has the same
//! shape whichever identifiers failed, so its shape leaks nothing about which
//! resource is missing.

use vstd::prelude::*;
use vstd::string::StringExecFns;
use vstd::utf8::{decode_utf8, valid_utf8};
use crate::challenge::{
    ChallengeResult, generate_challenge_hash, push_char, spec_digest, spec_missing,
};
use crate::store::ClaimStore;
use crate::util::{extract_paths, lemma_split_on_nonempty, split_on};

verus! {

/// `c` is an ASCII letter or digit.
pub open spec fn is_ascii_alphanumeric_char(c: char) -> bool {
    ('0' as u32 <= c as u32 && c as u32 <= '9' as u32) || ('A' as u32 <= c as u32 && c as u32
        <= 'Z' as u32) || ('a' as u32 <= c as u32 && c as u32 <= 'z' as u32)
}

/// The shape every fallback response has: exactly sixteen ASCII alphanumeric
/// characters, whatever the request looked like.
pub open spec fn is_fallback_shape(s: Seq<char>) -> bool {
    s.len() == 16 && (forall|i: int| 0 <= i < s.len() ==> is_ascii_alphanumeric_char(s[i]))
}

/// Relies on rand's `Alphanumeric` distribution, sampled through
/// `thread_rng`: every sample is drawn from the ASCII letters and digits.
/// Nothing else is assumed of the drawn value.
#[verifier::external_body]
fn random_alphanumeric_char() -> (c: char)
    ensures
        is_ascii_alphanumeric_char(c),
{
    let b: u8 = rand::Rng::sample(&mut rand::thread_rng(), rand::distributions::Alphanumeric);
    b as char
}

/// Draws a fresh fallback response: sixteen random alphanumeric characters,
/// never derived from the request.
pub fn random_fallback() -> (r: String)
    ensures
        is_fallback_shape(r@),
{
    let mut r = String::new();
    let mut i: usize = 0;
    while i < 16
        invariant
            i <= 16,
            r@.len() == i,
            forall|j: int| 0 <= j < i ==> is_ascii_alphanumeric_char(r@[j]),
        decreases 16 - i,
    {
        let c = random_alphanumeric_char();
        push_char(&mut r, c);
        i += 1;
    }
    r
}

/// The segments of `parts` joined with the separator `sep` between
/// consecutive segments.
pub open spec fn join_with(parts: Seq<Seq<char>>, sep: char) -> Seq<char>
    decreases parts.len(),
{
    if parts.len() == 0 {
        Seq::<char>::empty()
    } else if parts.len() == 1 {
        parts[0]
    } else {
        parts[0] + seq![sep] + join_with(parts.drop_first(), sep)
    }
}

/// The digest owed for each identifier of `ids`, in order.
pub open spec fn digests_of(m: Seq<(Seq<char>, Seq<char>)>, ids: Seq<Seq<char>>) -> Seq<
    Seq<char>,
> {
    Seq::new(ids.len(), |i: int| spec_digest(m, ids[i]))
}

/// Some identifier of `ids` resolves to no usable claim content in `m`.
pub open spec fn any_missing(m: Seq<(Seq<char>, Seq<char>)>, ids: Seq<Seq<char>>) -> bool {
    exists|i: int| 0 <= i < ids.len() && spec_missing(m, ids[i])
}

/// The response is the random fallback exactly when the identifier list is
/// empty or some identifier fails to resolve.
pub open spec fn takes_fallback(m: Seq<(Seq<char>, Seq<char>)>, ids: Seq<Seq<char>>) -> bool {
    ids.len() == 0 || any_missing(m, ids)
}

/// The successful response: every identifier's digest, joined with `;` in
/// request order. A function of the store and the identifiers alone, so two
/// calls over unchanged content give the same response.
pub open spec fn success_response(m: Seq<(Seq<char>, Seq<char>)>, ids: Seq<Seq<char>>) -> Seq<
    char,
> {
    join_with(digests_of(m, ids), ';')
}

/// Computes the challenge result for each identifier: one result per
/// identifier, in request order.
pub fn challenge_results(store: &ClaimStore, paths: &Vec<String>) -> (results: Vec<
    ChallengeResult,
>)
    ensures
        results@.len() == paths.deep_view().len(),
        forall|i: int|
            0 <= i < results@.len() ==> #[trigger] results@[i].consistent_with(
                store@,
                paths.deep_view()[i],
            ),
{
    let n = paths.len();
    let mut results: Vec<ChallengeResult> = Vec::new();
    let mut i: usize = 0;
    while i < n
        invariant
            n == paths@.len(),
            i <= n,
            results@.len() == i,
            forall|j: int|
                0 <= j < i ==> #[trigger] results@[j].consistent_with(
                    store@,
                    paths.deep_view()[j],
                ),
        decreases n - i,
    {
        let r = generate_challenge_hash(store, &paths[i]);
        results.push(r);
        proof {
            assert(paths.deep_view()[i as int] == paths@[i as int]@);
        }
        i += 1;
    }
    results
}

/// Maps every identifier to its challenge result and assembles the response:
/// the digests joined with `;` when every identifier resolves, and a fresh
/// sixteen-character random alphanumeric string when the list is empty or any
/// identifier is missing or empty.
pub fn assemble(store: &ClaimStore, paths: &Vec<String>) -> (r: String)
    ensures
        takes_fallback(store@, paths.deep_view()) ==> is_fallback_shape(r@),
        !takes_fallback(store@, paths.deep_view()) ==> r@ == success_response(
            store@,
            paths.deep_view(),
        ),
{
    let ghost m = store@;
    let ghost ids = paths.deep_view();
    let results = challenge_results(store, paths);
    let n = results.len();

    let mut missing = false;
    let mut i: usize = 0;
    while i < n
        invariant
            n == ids.len(),
            n == results@.len(),
            ids == paths.deep_view(),
            m == store@,
            i <= n,
            forall|j: int|
                0 <= j < n ==> #[trigger] results@[j].consistent_with(m, ids[j]),
            missing <==> exists|j: int| 0 <= j < i && spec_missing(m, #[trigger] ids[j]),
        decreases n - i,
    {
        match &results[i] {
            ChallengeResult::Missing => {
                proof {
                    assert(results@[i as int].consistent_with(m, ids[i as int]));
                    assert(spec_missing(m, ids[i as int]));
                }
                missing = true;
            },
            ChallengeResult::Digest(_) => {
                proof {
                    assert(results@[i as int].consistent_with(m, ids[i as int]));
                    assert(!spec_missing(m, ids[i as int]));
                }
            },
        }
        i += 1;
    }

    if paths.len() == 0 || missing {
        proof {
            if missing {
                assert(any_missing(m, ids));
            }
        }
        return random_fallback();
    }
    proof {
        assert(forall|j: int| 0 <= j < n ==> !spec_missing(m, #[trigger] ids[j]));
        assert(!any_missing(m, ids));
    }

    let ghost ds = digests_of(m, ids);
    let mut out = String::new();
    let mut k: usize = 0;
    proof {
        reveal_strlit(";");
        assert(";"@ =~= seq![';']);
    }
    while k < n
        invariant
            n == ids.len(),
            n == results@.len(),
            0 < n,
            ids == paths.deep_view(),
            m == store@,
            ds == digests_of(m, ids),
            k <= n,
            ";"@ =~= seq![';'],
            forall|j: int|
                0 <= j < n ==> #[trigger] results@[j].consistent_with(m, ids[j]),
            forall|j: int| 0 <= j < n ==> !spec_missing(m, #[trigger] ids[j]),
            k == 0 ==> out@ =~= Seq::<char>::empty(),
            0 < k < n ==> join_with(ds, ';') =~= out@ + seq![';'] + join_with(
                ds.skip(k as int),
                ';',
            ),
            k == n ==> out@ =~= join_with(ds, ';'),
        decreases n - k,
    {
        proof {
            assert(ds.skip(k as int)[0] == ds[k as int]);
            assert(ds.skip(k as int).drop_first() =~= ds.skip(k + 1));
            assert(results@[k as int].consistent_with(m, ids[k as int]));
        }
        match &results[k] {
            ChallengeResult::Digest(d) => {
                if k > 0 {
                    out.append(";");
                }
                out.append(d.as_str());
            },
            ChallengeResult::Missing => {
                proof {
                    assert(false);
                }
            },
        }
        k += 1;
    }
    out
}

/// Law: on the success path the response is determined by the store contents
/// and the identifier list alone. Any two responses assembled for the same
/// identifiers over unchanged resource content are identical; only the
/// fallback path may differ between calls, and there each response still has
/// the fixed sixteen-character alphanumeric shape.
pub proof fn lemma_success_response_deterministic(
    m: Seq<(Seq<char>, Seq<char>)>,
    ids: Seq<Seq<char>>,
    r1: Seq<char>,
    r2: Seq<char>,
)
    requires
        !takes_fallback(m, ids),
        r1 == success_response(m, ids),
        r2 == success_response(m, ids),
    ensures
        r1 == r2,
{
}

/// Generates the full response for one raw request: splits it into
/// identifiers at each `;`, computes every challenge result, and assembles
/// the answer under the fallback policy. Total: every request string gets a
/// response.
pub fn generate_response(received_response: String, store: &ClaimStore) -> (r: String)
    ensures
        any_missing(store@, split_on(received_response@, ';')) ==> is_fallback_shape(r@),
        !any_missing(store@, split_on(received_response@, ';')) ==> r@ == success_response(
            store@,
            split_on(received_response@, ';'),
        ),
{
    let paths = extract_paths(&received_response);
    proof {
        lemma_split_on_nonempty(received_response@, ';');
    }
    assemble(store, &paths)
}

/// The characters that lossy UTF-8 decoding assigns to `bytes`: determined by
/// the bytes alone.
pub uninterp spec fn utf8_lossy_of(bytes: Seq<u8>) -> Seq<char>;

/// Relies on `String::from_utf8_lossy`: invalid byte sequences are replaced
/// with the replacement character rather than failing, valid UTF-8 decodes to
/// exactly the characters it encodes, and the result depends on the bytes
/// alone.
#[verifier::external_body]
fn decode_utf8_lossy(bytes: &[u8]) -> (r: String)
    ensures
        r@ == utf8_lossy_of(bytes@),
        valid_utf8(bytes@) ==> r@ == decode_utf8(bytes@),
{
    String::from_utf8_lossy(bytes).into_owned()
}

/// The characters of `s` without its leading and trailing whitespace:
/// determined by the characters alone.
pub uninterp spec fn trim_of(s: Seq<char>) -> Seq<char>;

/// Relies on `str::trim`: it returns the string with leading and trailing
/// whitespace removed, a function of the characters alone.
#[verifier::external_body]
fn trim_str(s: &str) -> (r: &str)
    ensures
        r@ == trim_of(s@),
{
    s.trim()
}

/// The request carried by one raw transport chunk: the chunk decoded as
/// UTF-8, lossily, and stripped of surrounding whitespace.
pub open spec fn request_of_chunk(bytes: Seq<u8>) -> Seq<char> {
    trim_of(utf8_lossy_of(bytes))
}

/// Answers one raw transport chunk: decodes it as UTF-8 (lossily, so a
/// malformed chunk is still answered), trims surrounding whitespace, and
/// responds to the resulting request. Total: every chunk gets a response.
pub fn respond_to_chunk(chunk: &[u8], store: &ClaimStore) -> (r: String)
    ensures
        any_missing(store@, split_on(request_of_chunk(chunk@), ';')) ==> is_fallback_shape(r@),
        !any_missing(store@, split_on(request_of_chunk(chunk@), ';')) ==> r@ == success_response(
            store@,
            split_on(request_of_chunk(chunk@), ';'),
        ),
{
    let decoded = decode_utf8_lossy(chunk);
    let request = trim_str(decoded.as_str()).to_owned();
    generate_response(request, store)
}

} // verus!
