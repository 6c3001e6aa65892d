//! Splitting a string at each occurrence of a delimiter, handing out pieces
//! that borrow from the string that was split.

use crate::pattern::chars_of;
use vstd::prelude::*;
use vstd::string::StrSliceExecFns;

verus! {

/// `d` occurs in `h` starting at position `i`.
pub open spec fn occurs_at(h: Seq<char>, d: Seq<char>, i: int) -> bool {
    &&& 0 <= i
    &&& i + d.len() <= h.len()
    &&& h.subrange(i, i + d.len()) == d
}

/// `i` is the first position of `h` at which `d` occurs.
pub open spec fn is_first_occurrence(h: Seq<char>, d: Seq<char>, i: int) -> bool {
    &&& occurs_at(h, d, i)
    &&& forall|j: int| 0 <= j < i ==> !#[trigger] occurs_at(h, d, j)
}

/// `d` occurs nowhere in `h`.
pub open spec fn absent(h: Seq<char>, d: Seq<char>) -> bool {
    forall|j: int| !#[trigger] occurs_at(h, d, j)
}

/// The first position of `h` at which `d` occurs.
fn find_chars(h: &Vec<char>, d: &Vec<char>) -> (r: Option<usize>)
    ensures
        match r {
            Some(i) => is_first_occurrence(h@, d@, i as int),
            None => absent(h@, d@),
        },
{
    if d.len() > h.len() {
        return None;
    }
    let last = h.len() - d.len();
    let mut i: usize = 0;
    while i <= last
        invariant
            last == h.len() - d.len(),
            forall|j: int| 0 <= j < i ==> !#[trigger] occurs_at(h@, d@, j),
        decreases last + 1 - i,
    {
        let mut k: usize = 0;
        while k < d.len() && h[i + k] == d[k]
            invariant
                i <= last,
                last == h.len() - d.len(),
                k <= d.len(),
                forall|m: int| 0 <= m < k ==> h@[i + m] == d@[m],
            decreases d.len() - k,
        {
            k += 1;
        }
        if k == d.len() {
            assert(h@.subrange(i as int, i + d.len()) =~= d@);
            return Some(i);
        }
        assert(h@.subrange(i as int, i + d.len())[k as int] != d@[k as int]);
        i += 1;
    }
    None
}

/// What a [`StrSplit`] still has to split, and at what.
pub struct StrSplitView {
    pub remainder: Option<Seq<char>>,
    pub delimiter: Seq<char>,
}

/// Splits `haystack` at each occurrence of `delimiter`, from the left.
///
/// The pieces borrow from the haystack, whatever the lifetime of the
/// delimiter. After the last occurrence, the rest of the haystack is the last
/// piece, so a haystack that ends with the delimiter ends with an empty piece.
#[derive(Debug)]
pub struct StrSplit<'haystack, 'delim> {
    remainder: Option<&'haystack str>,
    delimiter: &'delim str,
}

impl<'haystack, 'delim> View for StrSplit<'haystack, 'delim> {
    type V = StrSplitView;

    closed spec fn view(&self) -> StrSplitView {
        StrSplitView {
            remainder: match self.remainder {
                Some(s) => Some(s@),
                None => None,
            },
            delimiter: self.delimiter@,
        }
    }
}

impl<'haystack, 'delim> StrSplit<'haystack, 'delim> {
    /// A splitter that has all of `haystack` still to split.
    pub fn new(haystack: &'haystack str, delimiter: &'delim str) -> (r: Self)
        ensures
            r@.remainder == Some(haystack@),
            r@.delimiter == delimiter@,
    {
        Self { remainder: Some(haystack), delimiter }
    }

    /// The next piece: the text before the first occurrence of the delimiter,
    /// or, where it does not occur, all that is left, after which the splitter
    /// is exhausted and returns `None`.
    pub fn next(&mut self) -> (r: Option<&'haystack str>)
        ensures
            final(self)@.delimiter == old(self)@.delimiter,
            old(self)@.remainder is None ==> r is None && final(self)@.remainder is None,
            forall|i: int|
                #![trigger is_first_occurrence(old(self)@.remainder->0, old(self)@.delimiter, i)]
                old(self)@.remainder is Some && is_first_occurrence(
                    old(self)@.remainder->0,
                    old(self)@.delimiter,
                    i,
                ) ==> {
                    let h = old(self)@.remainder->0;
                    &&& r is Some
                    &&& r->0@ == h.subrange(0, i)
                    &&& final(self)@.remainder == Some(
                        h.subrange(i + old(self)@.delimiter.len(), h.len() as int),
                    )
                },
            old(self)@.remainder is Some && absent(old(self)@.remainder->0, old(self)@.delimiter)
                ==> r is Some && r->0@ == old(self)@.remainder->0 && final(self)@.remainder is None,
    {
        match self.remainder {
            None => None,
            Some(rem) => {
                let h = chars_of(rem);
                let d = chars_of(self.delimiter);
                match find_chars(&h, &d) {
                    Some(i) => {
                        proof {
                            assert forall|k: int|
                                is_first_occurrence(h@, d@, k) implies k == i as int by {
                                if k < i {
                                    assert(!occurs_at(h@, d@, k));
                                } else if (i as int) < k {
                                    assert(!occurs_at(h@, d@, i as int));
                                }
                            }
                        }
                        assert(occurs_at(h@, d@, i as int));
                        assert(i + d@.len() <= h@.len());
                        let piece = rem.substring_char(0, i);
                        let n = h.len();
                        let rest = rem.substring_char(i + d.len(), n);
                        self.remainder = Some(rest);
                        Some(piece)
                    },
                    None => {
                        self.remainder = None;
                        Some(rem)
                    },
                }
            },
        }
    }
}

} // verus!
