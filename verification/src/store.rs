//! The claim store: the responder's view of the external, identifier-addressed
//! resources. Each entry pairs an identifier with the first line of the
//! resource it names (already stripped of its line terminator; possibly
//! empty). An identifier without an entry names a resource that could not be
//! opened or read.
//!
//! Keeping this as a plain value lets the challenge logic be stated and
//! checked against an explicit mapping; the surrounding program fills one in
//! from whatever store it actually reads.

use vstd::prelude::*;

verus! {

/// An ordered list of `(identifier, first line)` pairs. Lookup takes the
/// earliest entry whose identifier matches.
pub struct ClaimStore {
    entries: Vec<(String, String)>,
}

/// The content recorded for `id` in `entries`: the first line paired with the
/// earliest matching identifier, or `None` when no entry matches (the
/// resource is unreadable).
pub open spec fn lookup(entries: Seq<(Seq<char>, Seq<char>)>, id: Seq<char>) -> Option<Seq<char>>
    decreases entries.len(),
{
    if entries.len() == 0 {
        None
    } else if entries[0].0 == id {
        Some(entries[0].1)
    } else {
        lookup(entries.drop_first(), id)
    }
}

impl ClaimStore {
    /// The store as a sequence of `(identifier, content)` pairs of characters.
    pub closed spec fn view(&self) -> Seq<(Seq<char>, Seq<char>)> {
        Seq::new(self.entries@.len(), |i: int| (self.entries@[i].0@, self.entries@[i].1@))
    }

    /// A store with no readable resources.
    pub fn new() -> (s: ClaimStore)
        ensures
            s@ =~= Seq::<(Seq<char>, Seq<char>)>::empty(),
    {
        ClaimStore { entries: Vec::new() }
    }

    /// Records that the resource named `id` is readable and that its first
    /// line is `content`.
    pub fn insert(&mut self, id: String, content: String)
        ensures
            final(self)@ =~= old(self)@.push((id@, content@)),
    {
        let ghost idv = id@;
        let ghost contentv = content@;
        self.entries.push((id, content));
        proof {
            assert(self@ =~= old(self)@.push((idv, contentv)));
        }
    }

    /// Retrieves the first line of the resource named `id`, or `None` when the
    /// store holds no resource of that name.
    pub fn read_first_line(&self, id: &String) -> (r: Option<String>)
        ensures
            match r {
                Some(content) => lookup(self@, id@) == Some(content@),
                None => lookup(self@, id@) is None,
            },
    {
        let n = self.entries.len();
        let mut i: usize = 0;
        proof {
            assert(self@.skip(0) =~= self@);
        }
        while i < n
            invariant
                n == self.entries@.len(),
                i <= n,
                lookup(self@, id@) == lookup(self@.skip(i as int), id@),
            decreases n - i,
        {
            proof {
                assert(self@.skip(i as int)[0] == self@[i as int]);
                assert(self@.skip(i as int).drop_first() =~= self@.skip(i + 1));
            }
            if self.entries[i].0 == *id {
                return Some(self.entries[i].1.clone());
            }
            i += 1;
        }
        proof {
            assert(self@.skip(n as int) =~= Seq::<(Seq<char>, Seq<char>)>::empty());
        }
        None
    }
}

} // verus!
