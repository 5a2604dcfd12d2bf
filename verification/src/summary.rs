//! The summary of a phase: which files failed, said in one line.

use vstd::prelude::*;
use vstd::string::StringExecFns;

verus! {

/// The opening words of the summary: one form for no failure, one for a single failure,
/// one for several.
pub open spec fn headline_text(failed: Seq<Seq<char>>) -> Seq<char> {
    if failed.len() == 0 {
        "No files failed!"@
    } else if failed.len() == 1 {
        "This file failed"@
    } else {
        "These files failed"@
    }
}

/// The failed files in the order in which they failed, separated by a comma and a space.
pub open spec fn listing_text(failed: Seq<Seq<char>>) -> Seq<char>
    decreases failed.len(),
{
    if failed.len() == 0 {
        Seq::empty()
    } else if failed.len() == 1 {
        failed[0]
    } else {
        listing_text(failed.drop_last()) + ", "@ + failed.last()
    }
}

/// The whole summary: the headline alone where nothing failed, otherwise the headline,
/// a colon and the listing.
pub open spec fn summary_text(failed: Seq<Seq<char>>) -> Seq<char> {
    if failed.len() == 0 {
        headline_text(failed)
    } else {
        headline_text(failed) + ": "@ + listing_text(failed)
    }
}

/// The files that failed in one phase, in the order in which they failed.
#[derive(Debug, Clone, PartialEq, Eq)]
pub struct Summary {
    failed: Vec<String>,
}

impl View for Summary {
    type V = Seq<Seq<char>>;

    /// The failed files.
    closed spec fn view(&self) -> Seq<Seq<char>> {
        self.failed.deep_view()
    }
}

impl Summary {
    /// The summary of a phase in which the files `failed` failed.
    pub fn new(failed: Vec<String>) -> (s: Summary)
        ensures
            s@ == failed.deep_view(),
    {
        Summary { failed }
    }

    /// The failed files.
    pub fn failed(&self) -> (v: &Vec<String>)
        ensures
            v.deep_view() == self@,
    {
        &self.failed
    }

    /// The opening words of the summary.
    pub fn headline(&self) -> (s: String)
        ensures
            s@ == headline_text(self@),
    {
        if self.failed.len() == 0 {
            "No files failed!".to_owned()
        } else if self.failed.len() == 1 {
            "This file failed".to_owned()
        } else {
            "These files failed".to_owned()
        }
    }

    /// The failed files, separated by a comma and a space.
    pub fn listing(&self) -> (s: String)
        ensures
            s@ == listing_text(self@),
    {
        let mut out = String::new();
        let mut i: usize = 0;
        assert(self@.take(0) =~= Seq::empty());
        while i < self.failed.len()
            invariant
                i <= self.failed.len(),
                out@ == listing_text(self@.take(i as int)),
            decreases self.failed.len() - i,
        {
            proof {
                let next = self@.take(i + 1);
                assert(next.drop_last() =~= self@.take(i as int));
                assert(next.last() == self.failed[i as int]@);
                assert(Seq::<char>::empty() + self.failed[i as int]@ =~= self.failed[i as int]@);
            }
            if i > 0 {
                out.append(", ");
            }
            out.append(self.failed[i].as_str());
            i += 1;
        }
        assert(self@.take(i as int) =~= self@);
        out
    }

    /// The whole summary in one line.
    pub fn text(&self) -> (s: String)
        ensures
            s@ == summary_text(self@),
    {
        let mut out = self.headline();
        if self.failed.len() > 0 {
            out.append(": ");
            let listing = self.listing();
            out.append(listing.as_str());
        }
        out
    }
}

} // verus!
