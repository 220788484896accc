use vstd::prelude::*;
use crate::util::ax::Ax;

verus! {

/// A byte offset into the source text.
#[derive(Debug, Clone, Copy, PartialEq, Eq, Hash, Structural)]
pub struct Offset(pub usize);

/// A half-open range of bytes of the source text: `length` bytes from `start`.
#[derive(Debug, Clone, Copy, PartialEq, Eq, Hash, Structural)]
pub struct Span {
    pub start: Offset,
    pub length: usize,
}

/// Where a node of a tree comes from: a span of the source text, or nowhere
/// (a node that a compiler stage made up).
#[derive(Debug, Clone, Copy, PartialEq, Eq, Hash, Structural)]
pub enum SrcLoc {
    Known(Span),
    Unknown,
}

/// A value together with the place it comes from.
pub type WithLoc<T> = Ax<SrcLoc, T>;

/// A vector together with the place it comes from.
pub type LVec<T> = WithLoc<Vec<T>>;

/// A small number that stands for a source location in one function's tag table.
#[derive(Debug, Clone, Copy, PartialEq, Eq, Hash, Structural)]
pub struct Tag {
    pub value: u32,
}

/// A value together with the tag of the place it comes from.
pub type WithTag<T> = Ax<Tag, T>;

/// What has a source location.
pub trait Located {
    spec fn spec_location(&self) -> SrcLoc;

    fn location(&self) -> (loc: SrcLoc)
        ensures
            loc == self.spec_location(),
    ;
}

/// What has a tag.
pub trait Tagged {
    spec fn spec_tag(&self) -> Tag;

    fn tag(&self) -> (tag: Tag)
        ensures
            tag == self.spec_tag(),
    ;
}

/// A kind of location: two of them merge into one that encloses both.
pub trait LocLike: Sized {
    spec fn spec_enclosing(fst: &Self, snd: &Self) -> Self;

    fn enclosing(fst: &Self, snd: &Self) -> (r: Self)
        ensures
            r == Self::spec_enclosing(fst, snd),
    ;
}

impl<T> Located for WithLoc<T> {
    open spec fn spec_location(&self) -> SrcLoc {
        self.a
    }

    fn location(&self) -> (loc: SrcLoc) {
        self.a
    }
}

impl<T> Tagged for WithTag<T> {
    open spec fn spec_tag(&self) -> Tag {
        self.a
    }

    fn tag(&self) -> (tag: Tag) {
        self.a
    }
}

impl<T> WithLoc<T> {
    /// `value`, found at `location`.
    pub fn known(value: T, location: Span) -> (r: WithLoc<T>)
        ensures
            r == (Ax { a: SrcLoc::Known(location), v: value }),
    {
        Ax { a: SrcLoc::Known(location), v: value }
    }

    /// `value`, from nowhere in the source.
    pub fn unknown(value: T) -> (r: WithLoc<T>)
        ensures
            r == (Ax { a: SrcLoc::Unknown, v: value }),
    {
        Ax { a: SrcLoc::Unknown, v: value }
    }

    /// Replaces the location by its tag in `tag_map`, interning it if it is new.
    pub fn to_tagged(self, tag_map: &mut TagMap) -> (r: WithTag<T>)
        requires
            old(tag_map).has_room(),
        ensures
            final(tag_map)@ == intern(old(tag_map)@, self.a),
            r == (Ax { a: tag_of(old(tag_map)@, self.a), v: self.v }),
    {
        let tag = tag_map.get_tag(self.a);
        Ax { a: tag, v: self.v }
    }
}

impl Span {
    /// The offset one past the last byte, or the largest offset where that does not fit.
    pub open spec fn end(self) -> int {
        if self.start.0 + self.length > usize::MAX {
            usize::MAX as int
        } else {
            self.start.0 + self.length
        }
    }

    /// The smallest span that holds both: from the lesser start to the greater end.
    pub open spec fn spec_enclosing(fst: Span, snd: Span) -> Span {
        let start = if fst.start.0 <= snd.start.0 { fst.start.0 } else { snd.start.0 };
        let end = if fst.end() >= snd.end() { fst.end() } else { snd.end() };
        Span { start: Offset(start), length: (end - start) as usize }
    }

    fn end_offset(&self) -> (e: usize)
        ensures
            e == self.end(),
    {
        if self.length > usize::MAX - self.start.0 {
            usize::MAX
        } else {
            self.start.0 + self.length
        }
    }

    /// Returns the span that encloses both `fst` and `snd`.
    pub fn enclosing(fst: &Span, snd: &Span) -> (r: Span)
        ensures
            r == Span::spec_enclosing(*fst, *snd),
            r.start.0 <= fst.start.0,
            r.start.0 <= snd.start.0,
            r.end() >= fst.end(),
            r.end() >= snd.end(),
    {
        let fst_end = fst.end_offset();
        let snd_end = snd.end_offset();
        let start = if fst.start.0 <= snd.start.0 { fst.start.0 } else { snd.start.0 };
        let end = if fst_end >= snd_end { fst_end } else { snd_end };
        Span { start: Offset(start), length: end - start }
    }

    /// The span from `start` up to, not including, `end`.
    pub fn from_offsets(start: Offset, end: Offset) -> (r: Span)
        requires
            start.0 <= end.0,
        ensures
            r.start == start,
            r.length == end.0 - start.0,
    {
        Span { start, length: end.0 - start.0 }
    }

    /// The span from byte `start` up to, not including, byte `end`.
    pub fn from_offset_bytes(start: usize, end: usize) -> (r: Span)
        requires
            start <= end,
        ensures
            r.start == Offset(start),
            r.length == end - start,
    {
        Span::from_offsets(Offset(start), Offset(end))
    }

    /// The span of `len` bytes from byte `start`.
    pub fn from_offset_len(start: usize, len: usize) -> (r: Span)
        ensures
            r == (Span { start: Offset(start), length: len }),
    {
        Span { start: Offset(start), length: len }
    }
}

/// The location that encloses both: an unknown one adds nothing.
pub open spec fn enclosing_loc(fst: SrcLoc, snd: SrcLoc) -> SrcLoc {
    match (fst, snd) {
        (SrcLoc::Known(a), SrcLoc::Known(b)) => SrcLoc::Known(Span::spec_enclosing(a, b)),
        (SrcLoc::Known(a), SrcLoc::Unknown) => SrcLoc::Known(a),
        (SrcLoc::Unknown, SrcLoc::Known(b)) => SrcLoc::Known(b),
        (SrcLoc::Unknown, SrcLoc::Unknown) => SrcLoc::Unknown,
    }
}

/// The location that encloses the first `n` of `locs`.
pub open spec fn enclosing_all(locs: Seq<SrcLoc>, n: nat) -> SrcLoc
    decreases n,
{
    if n == 0 || n > locs.len() {
        SrcLoc::Unknown
    } else {
        enclosing_loc(enclosing_all(locs, (n - 1) as nat), locs[n - 1])
    }
}

impl SrcLoc {
    /// `value`, at this location.
    pub fn attach<T>(&self, value: T) -> (r: WithLoc<T>)
        ensures
            r == (Ax { a: *self, v: value }),
    {
        Ax { a: *self, v: value }
    }

    /// The location that encloses both `fst` and `snd`.
    pub fn enclosing(fst: &SrcLoc, snd: &SrcLoc) -> (r: SrcLoc)
        ensures
            r == enclosing_loc(*fst, *snd),
    {
        match (fst, snd) {
            (SrcLoc::Known(a), SrcLoc::Known(b)) => SrcLoc::Known(Span::enclosing(a, b)),
            (SrcLoc::Known(a), SrcLoc::Unknown) => SrcLoc::Known(*a),
            (SrcLoc::Unknown, SrcLoc::Known(b)) => SrcLoc::Known(*b),
            (SrcLoc::Unknown, SrcLoc::Unknown) => SrcLoc::Unknown,
        }
    }

    /// The location that encloses all of `locs`; unknown if there is none.
    pub fn all_enclosing(locs: &[SrcLoc]) -> (r: SrcLoc)
        ensures
            r == enclosing_all(locs@, locs@.len()),
    {
        let mut acc = SrcLoc::Unknown;
        let mut i: usize = 0;
        while i < locs.len()
            invariant
                i <= locs.len(),
                acc == enclosing_all(locs@, i as nat),
            decreases locs.len() - i,
        {
            acc = SrcLoc::enclosing(&acc, &locs[i]);
            i += 1;
        }
        acc
    }

    /// The tag of this location in `tag_map`, interning it if it is new.
    pub fn to_tag(self, tag_map: &mut TagMap) -> (tag: Tag)
        requires
            old(tag_map).has_room(),
        ensures
            final(tag_map)@ == intern(old(tag_map)@, self),
            tag == tag_of(old(tag_map)@, self),
    {
        tag_map.get_tag(self)
    }
}

impl LocLike for SrcLoc {
    open spec fn spec_enclosing(fst: &Self, snd: &Self) -> Self {
        enclosing_loc(*fst, *snd)
    }

    fn enclosing(fst: &Self, snd: &Self) -> (r: Self) {
        SrcLoc::enclosing(fst, snd)
    }
}

impl LocLike for () {
    open spec fn spec_enclosing(fst: &Self, snd: &Self) -> Self {
        ()
    }

    fn enclosing(fst: &Self, snd: &Self) -> (r: Self) {
        ()
    }
}

impl Tag {
    /// `value` at this tag.
    pub fn attach<T>(&self, value: T) -> (r: WithTag<T>)
        ensures
            r == (Ax { a: *self, v: value }),
    {
        Ax { a: *self, v: value }
    }
}

/// The position of the first `loc` among the first `n` of `locs`, or `n` if there is none.
pub open spec fn first_index(locs: Seq<SrcLoc>, loc: SrcLoc, n: nat) -> nat
    decreases n,
{
    if n == 0 || n > locs.len() {
        n
    } else if first_index(locs, loc, (n - 1) as nat) < n - 1 {
        first_index(locs, loc, (n - 1) as nat)
    } else if locs[n - 1] == loc {
        (n - 1) as nat
    } else {
        n
    }
}

/// The tag that `loc` has in the table `locs`, or will get when it is interned.
pub open spec fn tag_of(locs: Seq<SrcLoc>, loc: SrcLoc) -> Tag {
    Tag { value: first_index(locs, loc, locs.len()) as u32 }
}

/// The table `locs` after `loc` was interned: unchanged if it holds `loc`, else one longer.
pub open spec fn intern(locs: Seq<SrcLoc>, loc: SrcLoc) -> Seq<SrcLoc> {
    if first_index(locs, loc, locs.len()) < locs.len() {
        locs
    } else {
        locs.push(loc)
    }
}

/// The source locations of one function, each held once; a tag is a position in it.
#[derive(Debug, Clone, PartialEq, Eq)]
pub struct TagMap {
    locs: Vec<SrcLoc>,
}

impl View for TagMap {
    type V = Seq<SrcLoc>;

    closed spec fn view(&self) -> Seq<SrcLoc> {
        self.locs@
    }
}

impl Default for TagMap {
    fn default() -> (r: Self)
        ensures
            r@ == Seq::<SrcLoc>::empty(),
    {
        TagMap::new()
    }
}

impl TagMap {
    /// A table can take one more location while its tags still fit in 32 bits.
    pub open spec fn has_room(&self) -> bool {
        self@.len() < u32::MAX
    }

    /// The empty table.
    pub fn new() -> (r: TagMap)
        ensures
            r@ == Seq::<SrcLoc>::empty(),
    {
        TagMap { locs: Vec::new() }
    }

    /// The number of locations held.
    pub fn len(&self) -> (n: usize)
        ensures
            n == self@.len(),
    {
        self.locs.len()
    }

    /// True when `get_tag` may be called: see `has_room`.
    pub fn can_intern(&self) -> (b: bool)
        ensures
            b == self.has_room(),
    {
        self.locs.len() < 0xffff_ffff
    }

    /// The tag of `loc`: the one it has if the table holds it, else a new one.
    pub fn get_tag(&mut self, loc: SrcLoc) -> (tag: Tag)
        requires
            old(self).has_room(),
        ensures
            final(self)@ == intern(old(self)@, loc),
            tag == tag_of(old(self)@, loc),
    {
        let mut i: usize = 0;
        while i < self.locs.len()
            invariant
                i <= self.locs.len(),
                self.locs@ == old(self).locs@,
                first_index(self.locs@, loc, i as nat) == i,
            decreases self.locs.len() - i,
        {
            if self.locs[i] == loc {
                proof {
                    lemma_first_index_stays(self.locs@, loc, (i + 1) as nat, self.locs@.len());
                }
                return Tag { value: i as u32 };
            }
            i += 1;
        }
        let tag = Tag { value: self.locs.len() as u32 };
        self.locs.push(loc);
        tag
    }

    /// The location that `tag` stands for; unknown if the table has no such tag.
    pub fn resolve_tag(&self, tag: Tag) -> (loc: SrcLoc)
        ensures
            loc == if tag.value < self@.len() {
                self@[tag.value as int]
            } else {
                SrcLoc::Unknown
            },
    {
        let i = tag.value as usize;
        if i < self.locs.len() {
            self.locs[i]
        } else {
            SrcLoc::Unknown
        }
    }
}

/// Once a location is found among the first `n`, it stays the first for any longer prefix.
pub proof fn lemma_first_index_stays(locs: Seq<SrcLoc>, loc: SrcLoc, n: nat, m: nat)
    requires
        n <= m <= locs.len(),
        first_index(locs, loc, n) < n,
    ensures
        first_index(locs, loc, m) == first_index(locs, loc, n),
    decreases m,
{
    if m > n {
        lemma_first_index_stays(locs, loc, n, (m - 1) as nat);
    }
}

/// Interning is idempotent, and the tag it gives resolves to the location.
pub proof fn lemma_intern_holds(locs: Seq<SrcLoc>, loc: SrcLoc)
    ensures
        tag_of(locs, loc).value < intern(locs, loc).len() || locs.len() >= u32::MAX,
        locs.len() < u32::MAX ==> intern(locs, loc)[tag_of(locs, loc).value as int] == loc,
        intern(intern(locs, loc), loc) == intern(locs, loc),
{
    lemma_first_index_bound(locs, loc, locs.len());
    let l2 = intern(locs, loc);
    lemma_first_index_bound(l2, loc, l2.len());
    if first_index(locs, loc, locs.len()) < locs.len() {
    } else {
        assert(l2.len() == locs.len() + 1);
        lemma_first_index_prefix(locs, l2, loc, locs.len());
        assert(first_index(l2, loc, l2.len()) == locs.len());
    }
}

/// The first position is at most `n`; below `n` it holds `loc`.
pub proof fn lemma_first_index_bound(locs: Seq<SrcLoc>, loc: SrcLoc, n: nat)
    requires
        n <= locs.len(),
    ensures
        first_index(locs, loc, n) <= n,
        first_index(locs, loc, n) < n ==> locs[first_index(locs, loc, n) as int] == loc,
    decreases n,
{
    if n > 0 {
        lemma_first_index_bound(locs, loc, (n - 1) as nat);
    }
}

/// Two tables that agree on their first `n` entries give the same first position there.
pub proof fn lemma_first_index_prefix(a: Seq<SrcLoc>, b: Seq<SrcLoc>, loc: SrcLoc, n: nat)
    requires
        n <= a.len(),
        n <= b.len(),
        forall|i: int| 0 <= i < n ==> a[i] == b[i],
    ensures
        first_index(a, loc, n) == first_index(b, loc, n),
    decreases n,
{
    if n > 0 {
        lemma_first_index_prefix(a, b, loc, (n - 1) as nat);
    }
}

} // verus!
