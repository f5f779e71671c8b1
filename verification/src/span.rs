//! Byte positions and half-open source ranges.

use std::ops::Range;
use vstd::prelude::*;

verus! {

/// A byte offset into a source buffer.
#[derive(Clone, Copy, Debug, PartialEq, Eq, Structural, Hash)]
pub struct BytePos(pub u32);

/// An opaque tag that tells source files apart.
#[derive(Clone, Copy, Debug, PartialEq, Eq, Structural, Hash)]
pub struct SyntaxContext(pub u32);

/// The half-open byte range `[lo, hi)` of a token or a node.
#[derive(Clone, Copy, Debug, PartialEq, Eq, Structural, Hash)]
pub struct Span {
    pub lo: BytePos,
    pub hi: BytePos,
    pub ctxt: SyntaxContext,
}

impl SyntaxContext {
    /// The tag of a source that has no other.
    pub fn empty() -> (c: SyntaxContext)
        ensures
            c == SyntaxContext(0),
    {
        SyntaxContext(0)
    }
}

impl Span {
    /// A span is well formed when it does not end before it starts.
    pub open spec fn wf(&self) -> bool {
        self.lo.0 <= self.hi.0
    }

    /// The number of bytes covered.
    pub open spec fn spec_len(&self) -> nat {
        if self.lo.0 <= self.hi.0 {
            (self.hi.0 - self.lo.0) as nat
        } else {
            0
        }
    }

    /// Builds the span between two positions, whichever order they come in.
    pub fn new(lo: BytePos, hi: BytePos, ctxt: SyntaxContext) -> (s: Span)
        ensures
            s.wf(),
            s.ctxt == ctxt,
            lo.0 <= hi.0 ==> s.lo == lo && s.hi == hi,
            lo.0 > hi.0 ==> s.lo == hi && s.hi == lo,
    {
        if lo.0 <= hi.0 {
            Span { lo, hi, ctxt }
        } else {
            Span { lo: hi, hi: lo, ctxt }
        }
    }

    /// Whether the span covers no byte.
    pub fn is_empty(&self) -> (b: bool)
        ensures
            b == (self.lo.0 == self.hi.0),
    {
        self.lo.0 == self.hi.0
    }

    /// The number of bytes covered by a well-formed span.
    pub fn len(&self) -> (n: u32)
        requires
            self.wf(),
        ensures
            n == self.spec_len(),
    {
        self.hi.0 - self.lo.0
    }

    /// The smallest span that covers both `self` and `other`, tagged as `self`.
    pub fn to(&self, other: Span) -> (s: Span)
        ensures
            self.wf() && other.wf() ==> s.wf(),
            s.ctxt == self.ctxt,
            s.lo.0 == if self.lo.0 <= other.lo.0 { self.lo.0 } else { other.lo.0 },
            s.hi.0 == if self.hi.0 >= other.hi.0 { self.hi.0 } else { other.hi.0 },
    {
        let lo = if self.lo.0 <= other.lo.0 { self.lo } else { other.lo };
        let hi = if self.hi.0 >= other.hi.0 { self.hi } else { other.hi };
        Span { lo, hi, ctxt: self.ctxt }
    }
}

/// The low 32 bits of an offset, which is what a position keeps of it.
pub open spec fn low32(n: usize) -> u32 {
    (n as int % 0x1_0000_0000) as u32
}

/// The span of a byte range, with the empty tag.
pub fn sp(r: Range<usize>) -> (s: Span)
    ensures
        s == Span::new_spec(low32(r.start), low32(r.end)),
        r.start <= r.end <= u32::MAX ==> s.wf() && s.lo.0 == r.start && s.hi.0 == r.end,
{
    let start: u64 = r.start as u64;
    let end: u64 = r.end as u64;
    let lo: u32 = (start % 0x1_0000_0000) as u32;
    let hi: u32 = (end % 0x1_0000_0000) as u32;
    Span::new(BytePos(lo), BytePos(hi), SyntaxContext::empty())
}

/// The span of the single byte with offset `i`, with the empty tag.
pub fn byte_span(i: usize) -> (s: Span)
    requires
        i < usize::MAX,
    ensures
        s == Span::new_spec(low32(i), low32((i + 1) as usize)),
        i < u32::MAX ==> s.wf() && s.lo.0 == i && s.hi.0 == i + 1,
{
    sp(i..i + 1)
}

impl Span {
    /// What `new` builds from two raw offsets under the empty tag.
    pub open spec fn new_spec(lo: u32, hi: u32) -> Span {
        if lo <= hi {
            Span { lo: BytePos(lo), hi: BytePos(hi), ctxt: SyntaxContext(0) }
        } else {
            Span { lo: BytePos(hi), hi: BytePos(lo), ctxt: SyntaxContext(0) }
        }
    }
}

} // verus!
