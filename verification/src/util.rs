//! Splitting a raw request into its identifier tokens.

use vstd::prelude::*;
use vstd::string::StrSliceExecFns;

verus! {

/// The result of splitting `s` on the delimiter `d`: the segments between
/// occurrences of `d`, in order. An empty input gives one empty segment, and
/// a delimiter at either end or next to another gives an empty segment there,
/// so the result always holds exactly one more segment than `s` holds
/// delimiters.
pub open spec fn split_on(s: Seq<char>, d: char) -> Seq<Seq<char>>
    decreases s.len(),
{
    if s.len() == 0 {
        seq![Seq::<char>::empty()]
    } else if s[0] == d {
        seq![Seq::<char>::empty()] + split_on(s.drop_first(), d)
    } else {
        let rest = split_on(s.drop_first(), d);
        seq![seq![s[0]] + rest[0]] + rest.drop_first()
    }
}

/// `s` holds no occurrence of the delimiter `d`.
pub open spec fn has_no_delim(s: Seq<char>, d: char) -> bool {
    forall|i: int| 0 <= i < s.len() ==> s[i] != d
}

/// Splitting never yields an empty sequence of segments.
pub proof fn lemma_split_on_nonempty(s: Seq<char>, d: char)
    ensures
        split_on(s, d).len() >= 1,
    decreases s.len(),
{
    if s.len() == 0 {
    } else if s[0] == d {
        lemma_split_on_nonempty(s.drop_first(), d);
    } else {
        lemma_split_on_nonempty(s.drop_first(), d);
    }
}

/// A delimiter-free string splits into itself as the one segment.
pub proof fn lemma_split_on_no_delim(s: Seq<char>, d: char)
    requires
        has_no_delim(s, d),
    ensures
        split_on(s, d) =~~= seq![s],
    decreases s.len(),
{
    if s.len() == 0 {
        assert(split_on(s, d) =~~= seq![s]);
    } else {
        assert(s[0] != d);
        lemma_split_on_no_delim(s.drop_first(), d);
        let rest = split_on(s.drop_first(), d);
        assert(rest[0] == s.drop_first());
        assert(seq![s[0]] + s.drop_first() =~= s);
        assert(split_on(s, d) =~~= seq![s]);
    }
}

/// Splitting a string that starts with a delimiter-free segment followed by a
/// delimiter peels off exactly that segment.
pub proof fn lemma_split_on_prefix(seg: Seq<char>, d: char, rest: Seq<char>)
    requires
        has_no_delim(seg, d),
    ensures
        split_on(seg + seq![d] + rest, d) =~~= seq![seg] + split_on(rest, d),
    decreases seg.len(),
{
    lemma_split_on_nonempty(rest, d);
    let s = seg + seq![d] + rest;
    if seg.len() == 0 {
        assert(s[0] == d);
        assert(s.drop_first() =~= rest);
        assert(split_on(s, d) =~~= seq![seg] + split_on(rest, d));
    } else {
        assert(s[0] == seg[0]);
        assert(s[0] != d);
        assert(s.drop_first() =~= seg.drop_first() + seq![d] + rest);
        lemma_split_on_prefix(seg.drop_first(), d, rest);
        let q = split_on(s.drop_first(), d);
        assert(q =~~= seq![seg.drop_first()] + split_on(rest, d));
        assert(q[0] == seg.drop_first());
        assert(seq![s[0]] + q[0] =~= seg);
        assert(q.drop_first() =~~= split_on(rest, d));
        assert(split_on(s, d) =~~= seq![seg] + split_on(rest, d));
    }
}

/// Splits a request string into its identifier tokens at each `;`.
///
/// Splitting follows ordinary split semantics: an empty request yields one
/// empty token, and `";"` yields two, so the caller always receives at least
/// one token.
pub fn extract_paths(joined_paths: &String) -> (paths: Vec<String>)
    ensures
        paths.deep_view() == split_on(joined_paths@, ';'),
        paths.len() >= 1,
{
    let s: &str = joined_paths.as_str();
    let len: usize = s.unicode_len();
    let mut paths: Vec<String> = Vec::new();
    let mut start: usize = 0;
    let mut i: usize = 0;
    proof {
        assert(s@.skip(0) =~= s@);
        assert(paths.deep_view() =~= Seq::<Seq<char>>::empty());
        assert(paths.deep_view() + split_on(s@.skip(0), ';') =~~= split_on(joined_paths@, ';'));
    }
    while i < len
        invariant
            len == s@.len(),
            start <= i <= len,
            s@ == joined_paths@,
            split_on(joined_paths@, ';') =~~= paths.deep_view() + split_on(
                s@.skip(start as int),
                ';',
            ),
            has_no_delim(s@.subrange(start as int, i as int), ';'),
        decreases len - i,
    {
        let c = s.get_char(i);
        if c == ';' {
            let seg = s.substring_char(start, i);
            let ghost old_parts = paths.deep_view();
            paths.push(seg.to_owned());
            proof {
                let ghost segv = s@.subrange(start as int, i as int);
                assert(s@.skip(start as int) =~= segv + seq![';'] + s@.skip(i + 1));
                lemma_split_on_prefix(segv, ';', s@.skip(i + 1));
                assert(paths.deep_view() =~~= old_parts + seq![segv]);
            }
            start = i + 1;
        }
        i += 1;
        proof {
            assert(has_no_delim(s@.subrange(start as int, i as int), ';'));
        }
    }
    let seg = s.substring_char(start, len);
    let ghost old_parts = paths.deep_view();
    paths.push(seg.to_owned());
    proof {
        let ghost segv = s@.subrange(start as int, len as int);
        assert(s@.skip(start as int) =~= segv);
        lemma_split_on_no_delim(segv, ';');
        assert(paths.deep_view() =~~= old_parts + seq![segv]);
        assert(paths.deep_view() =~~= split_on(joined_paths@, ';'));
    }
    paths
}

} // verus!
