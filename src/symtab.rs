//! Symbol table of a compiler: local names and their frame offsets, newest first
//! on lookup so that a later declaration shadows an earlier one.
use vstd::prelude::*;

verus! {

/// Why a lookup failed.
#[derive(Debug, PartialEq, Eq, Clone, Copy, Structural)]
pub enum Errors {
    Undefined,
    BadSymbolTableIndex,
}

/// Names and offsets are kept as two parallel vectors.
pub struct SymTab {
    length: usize,
    names: Vec<String>,
    offsets: Vec<u16>,
    next_local: u16,
}

/// A symbol found by name.
#[derive(Debug, PartialEq, Clone)]
pub struct Symbol<'name_lifetime> {
    pub name: &'name_lifetime str,
    pub offset: u16,
}

/// `i` is the last position of `name` in `names`.
pub open spec fn last_index_of(names: Seq<Seq<char>>, name: Seq<char>, i: int) -> bool {
    0 <= i < names.len() && names[i] == name && forall|j: int| i < j < names.len() ==> names[j] != name
}

impl SymTab {
    /// The declared names, oldest first.
    pub closed spec fn names(&self) -> Seq<Seq<char>> {
        self.names@.map_values(|s: String| s@)
    }

    /// The offset of each declared name.
    pub closed spec fn offsets(&self) -> Seq<u16> {
        self.offsets@
    }

    /// The next free frame offset.
    pub closed spec fn next(&self) -> u16 {
        self.next_local
    }

    pub closed spec fn wf(&self) -> bool {
        self.length == self.names@.len() && self.length == self.offsets@.len()
    }

    /// An empty table whose first local goes at offset 2.
    pub fn new() -> (r: Self)
        ensures
            r.wf(),
            r.names() == Seq::<Seq<char>>::empty(),
            r.offsets() == Seq::<u16>::empty(),
            r.next() == 2,
    {
        let r = SymTab { length: 0, names: Vec::new(), offsets: Vec::new(), next_local: 2 };
        assert(r.names() =~= Seq::<Seq<char>>::empty());
        r
    }

    /// Number of declared names.
    pub fn len(&self) -> (r: usize)
        requires
            self.wf(),
        ensures
            r == self.names().len(),
    {
        self.length
    }

    /// Reserves a two-byte slot and answers its offset; offsets wrap around at the
    /// end of the 16-bit frame.
    pub fn alloc_temp(&mut self) -> (r: u16)
        ensures
            r == old(self).next(),
            final(self).next() == old(self).next().wrapping_add(2),
            final(self).names() == old(self).names(),
            final(self).offsets() == old(self).offsets(),
            final(self).wf() == old(self).wf(),
    {
        let next_local = self.next_local;
        self.next_local = self.next_local.wrapping_add(2);
        next_local
    }

    /// Releases the most recently reserved slot.
    pub fn free_temp(&mut self)
        ensures
            final(self).next() == old(self).next().wrapping_sub(2),
            final(self).names() == old(self).names(),
            final(self).offsets() == old(self).offsets(),
            final(self).wf() == old(self).wf(),
    {
        self.next_local = self.next_local.wrapping_sub(2);
    }

    /// Declares `name` at the next free offset; it shadows any earlier `name`.
    pub fn create_local(&mut self, name: &str)
        requires
            old(self).wf(),
        ensures
            final(self).wf(),
            final(self).names() == old(self).names().push(name@),
            final(self).offsets() == old(self).offsets().push(old(self).next()),
            final(self).next() == old(self).next().wrapping_add(2),
    {
        self.names.push(name.to_owned());
        let t = self.alloc_temp();
        self.offsets.push(t);
        self.length = self.names.len();
        assert(self.names() =~= old(self).names().push(name@));
    }

    /// The newest symbol called `name`, or `Undefined` when there is none.
    pub fn find_by_name<'n>(&'n self, name: &'n str) -> (r: Result<Box<Symbol<'n>>, Errors>)
        requires
            self.wf(),
        ensures
            r is Ok <==> self.names().contains(name@),
            r matches Ok(s) ==> s.name@ == name@ && exists|i: int|
                last_index_of(self.names(), name@, i) && s.offset == self.offsets()[i],
            r matches Err(e) ==> e == Errors::Undefined,
    {
        if self.length == 0 {
            return Err(Errors::Undefined);
        }
        let key = name.to_owned();
        let mut i: usize = self.length;
        while i > 0
            invariant
                i <= self.names@.len(),
                self.wf(),
                key@ == name@,
                forall|j: int| i <= j < self.names@.len() ==> self.names()[j] != name@,
            decreases i,
        {
            i = i - 1;
            if self.names[i] == key {
                assert(last_index_of(self.names(), name@, i as int));
                let sym = Symbol { name, offset: self.offsets[i] };
                assert(sym.offset == self.offsets()[i as int]);
                return Ok(Box::new(sym));
            }
        }
        Err(Errors::Undefined)
    }
}

impl<'a> Symbol<'a> {
    /// The symbol's frame offset.
    pub fn offset(&self) -> (r: u16)
        ensures
            r == self.offset,
    {
        self.offset
    }
}

} // verus!
