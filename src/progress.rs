//! A progress counter that wraps an iterator, and the text of its bar.
//!
//! Whether the bar has a bound is part of the type: [`UnBound`] draws one `*`
//! per step taken, [`Bounded`] draws the steps taken and the steps left between
//! two delimiters. Stepping the wrapped iterator and printing are left to the
//! caller.

use vstd::prelude::*;
use vstd::string::StringExecFns;

verus! {

/// The bar has no known end.
pub struct UnBound;

/// The bar ends after `bound` steps and is drawn between `delims`.
pub struct Bounded {
    pub bound: usize,
    pub delims: (char, char),
}

/// An iterator together with the number of steps taken through it.
pub struct Progress<Iter, Bound> {
    pub iter: Iter,
    pub i: usize,
    pub bound: Bound,
}

/// `n` copies of `c`.
pub open spec fn repeat(c: char, n: nat) -> Seq<char> {
    Seq::new(n, |k: int| c)
}

/// Relies on `String::push`: appends one character at the end.
#[verifier::external_body]
fn push_char(s: &mut String, c: char)
    ensures
        final(s)@ == old(s)@.push(c),
{
    s.push(c);
}

/// Appends `n` copies of `c` to `s`.
fn push_repeated(s: &mut String, c: char, n: usize)
    ensures
        final(s)@ == old(s)@ + repeat(c, n as nat),
{
    let mut k: usize = 0;
    while k < n
        invariant
            k <= n,
            s@ == old(s)@ + repeat(c, k as nat),
        decreases n - k,
    {
        push_char(s, c);
        k += 1;
        assert(s@ =~= old(s)@ + repeat(c, k as nat));
    }
}

impl<Iter, Bound> Progress<Iter, Bound> {
    /// Counts one more step.
    pub fn advance(&mut self)
        requires
            old(self).i < usize::MAX,
        ensures
            final(self).i == old(self).i + 1,
            final(self).iter == old(self).iter,
            final(self).bound == old(self).bound,
    {
        self.i = self.i + 1;
    }
}

impl<Iter> Progress<Iter, UnBound> {
    /// Starts counting at zero steps, with no bound.
    pub fn new(iter: Iter) -> (r: Self)
        ensures
            r.iter == iter,
            r.i == 0,
    {
        Self { iter, i: 0, bound: UnBound }
    }

    /// Gives the bar a bound of `len` steps, the length of the wrapped
    /// iterator, drawn between `'['` and `']'`.
    pub fn with_bound(self, len: usize) -> (r: Progress<Iter, Bounded>)
        ensures
            r.iter == self.iter,
            r.i == self.i,
            r.bound.bound == len,
            r.bound.delims == ('[', ']'),
    {
        let bound = Bounded { bound: len, delims: ('[', ']') };
        Progress { iter: self.iter, i: self.i, bound }
    }

    /// The bar: one `*` per step taken.
    pub fn render(&self) -> (r: String)
        ensures
            r@ == repeat('*', self.i as nat),
    {
        let mut s = String::new();
        push_repeated(&mut s, '*', self.i);
        s
    }
}

impl<Iter> Progress<Iter, Bounded> {
    /// Draws the bar between `delims` instead.
    pub fn with_delims(self, delims: (char, char)) -> (r: Self)
        ensures
            r.iter == self.iter,
            r.i == self.i,
            r.bound.bound == self.bound.bound,
            r.bound.delims == delims,
    {
        let mut p = self;
        p.bound.delims = delims;
        p
    }

    /// The bar: the opening delimiter, one `*` per step taken, one space per
    /// step left, and the closing delimiter.
    pub fn render_bounded(&self) -> (r: String)
        requires
            self.i <= self.bound.bound,
        ensures
            r@ == seq![self.bound.delims.0] + repeat('*', self.i as nat) + repeat(
                ' ',
                (self.bound.bound - self.i) as nat,
            ) + seq![self.bound.delims.1],
    {
        let mut s = String::new();
        push_char(&mut s, self.bound.delims.0);
        push_repeated(&mut s, '*', self.i);
        push_repeated(&mut s, ' ', self.bound.bound - self.i);
        push_char(&mut s, self.bound.delims.1);
        s
    }
}

} // verus!
