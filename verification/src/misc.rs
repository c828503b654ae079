//! Whole-address-space images: memory dumps and assembled programs.
use crate::isa::{Addr, Word, ADDR_SPACE_SIZE_IN_WORDS};
use vstd::prelude::*;

verus! {

/// The contents of `base` after writing each `(addr, word)` of `items` in order.
pub open spec fn layered(base: Seq<Word>, items: Seq<(Addr, Word)>) -> Seq<Word>
    decreases items.len(),
{
    if items.len() == 0 {
        base
    } else {
        let last = items.last();
        layered(base, items.drop_last()).update(last.0 as int, last.1)
    }
}

/// Every word of an image, paired with its address.
pub open spec fn entries_of(words: Seq<Word>) -> Seq<(Addr, Word)> {
    Seq::new(words.len(), |i: int| (i as Addr, words[i]))
}

/// The words of an assembled program that are marked as set, paired with their
/// addresses, in address order.
pub open spec fn set_entries(prog: Seq<(Word, bool)>) -> Seq<(Addr, Word)>
    decreases prog.len(),
{
    if prog.len() == 0 {
        Seq::empty()
    } else {
        let last = prog.last();
        let rest = set_entries(prog.drop_last());
        if last.1 {
            rest.push(((prog.len() - 1) as Addr, last.0))
        } else {
            rest
        }
    }
}

/// Layering keeps the length of the image.
pub proof fn lemma_layered_len(base: Seq<Word>, items: Seq<(Addr, Word)>)
    requires
        base.len() == ADDR_SPACE_SIZE_IN_WORDS,
    ensures
        layered(base, items).len() == ADDR_SPACE_SIZE_IN_WORDS,
    decreases items.len(),
{
    if items.len() > 0 {
        lemma_layered_len(base, items.drop_last());
    }
}

/// The word at an address after layering: the word of the last item that
/// names the address, or the base word where no item names it.
pub proof fn lemma_layered_at(base: Seq<Word>, items: Seq<(Addr, Word)>, a: int)
    requires
        base.len() == ADDR_SPACE_SIZE_IN_WORDS,
        0 <= a < ADDR_SPACE_SIZE_IN_WORDS,
    ensures
        (forall|j: int| 0 <= j < items.len() ==> items[j].0 != a) ==> layered(base, items)[a]
            == base[a],
        forall|j: int|
            0 <= j < items.len() && items[j].0 == a && (forall|k: int|
                j < k < items.len() ==> items[k].0 != a) ==> layered(base, items)[a]
                == items[j].1,
    decreases items.len(),
{
    lemma_layered_len(base, items);
    if items.len() > 0 {
        let rest = items.drop_last();
        lemma_layered_at(base, rest, a);
        lemma_layered_len(base, rest);
        assert forall|j: int|
            0 <= j < items.len() && items[j].0 == a && (forall|k: int|
                j < k < items.len() ==> items[k].0 != a) implies layered(base, items)[a]
            == items[j].1 by {
            if j < items.len() - 1 {
                assert(rest[j] == items[j]);
                assert forall|k: int| j < k < rest.len() implies rest[k].0 != a by {
                    assert(rest[k] == items[k]);
                }
            }
        }
        if forall|j: int| 0 <= j < items.len() ==> items[j].0 != a {
            assert forall|j: int| 0 <= j < rest.len() implies rest[j].0 != a by {
                assert(rest[j] == items[j]);
            }
            assert(items[items.len() - 1].0 != a);
        }
    }
}

/// A memory image covering the whole address space.
#[derive(Clone)]
pub struct MemoryDump {
    words: Vec<Word>,
}

impl MemoryDump {
    /// The image covers the whole address space.
    pub open spec fn wf(&self) -> bool {
        self@.len() == ADDR_SPACE_SIZE_IN_WORDS
    }

    /// The words of the image, by address.
    pub closed spec fn view(&self) -> Seq<Word> {
        self.words@
    }

    /// An image of the given words; `words` must cover the whole address space.
    pub fn from_words(words: Vec<Word>) -> (r: MemoryDump)
        requires
            words@.len() == ADDR_SPACE_SIZE_IN_WORDS,
        ensures
            r@ == words@,
            r.wf(),
    {
        MemoryDump { words }
    }

    /// An image holding only zeros.
    pub fn blank() -> (r: MemoryDump)
        ensures
            r@ == Seq::new(ADDR_SPACE_SIZE_IN_WORDS as nat, |i: int| 0u16),
            r.wf(),
    {
        let words = vec![0u16; ADDR_SPACE_SIZE_IN_WORDS];
        assert(words@ =~= Seq::new(ADDR_SPACE_SIZE_IN_WORDS as nat, |i: int| 0u16));
        MemoryDump { words }
    }

    /// The word at an address.
    pub fn get(&self, addr: Addr) -> (r: Word)
        requires
            self.wf(),
        ensures
            r == self@[addr as int],
    {
        self.words[addr as usize]
    }

    /// The words of the image, by address.
    pub fn words(&self) -> (r: &Vec<Word>)
        ensures
            r@ == self@,
    {
        &self.words
    }

    /// Writes each `(addr, word)` of `loadable` into the image, in order, and
    /// hands the image back for further layers.
    pub fn layer_loadable(&mut self, loadable: &[(Addr, Word)]) -> (r: &mut MemoryDump)
        requires
            old(self).wf(),
        ensures
            (*r)@ == layered(old(self)@, loadable@),
            r.wf(),
            *final(self) == *final(r),
    {
        let mut i: usize = 0;
        while i < loadable.len()
            invariant
                0 <= i <= loadable@.len(),
                self.words@.len() == ADDR_SPACE_SIZE_IN_WORDS,
                self.words@ == layered(old(self)@, loadable@.subrange(0, i as int)),
            decreases loadable@.len() - i,
        {
            let (addr, word) = loadable[i];
            assert(loadable@.subrange(0, i + 1).drop_last() =~= loadable@.subrange(0, i as int));
            self.words.set(addr as usize, word);
            i = i + 1;
        }
        assert(loadable@.subrange(0, i as int) =~= loadable@);
        self
    }

    /// Writes each `(addr, word)` of `iter` into the image, in order.
    pub fn layer_iterator(&mut self, iter: &[(Addr, Word)]) -> (r: &mut MemoryDump)
        requires
            old(self).wf(),
        ensures
            (*r)@ == layered(old(self)@, iter@),
            r.wf(),
            *final(self) == *final(r),
    {
        self.layer_loadable(iter)
    }

    /// Every word of the image paired with its address, in address order.
    pub fn loadable(&self) -> (r: Vec<(Addr, Word)>)
        requires
            self.wf(),
        ensures
            r@ == entries_of(self@),
    {
        let mut out: Vec<(Addr, Word)> = Vec::new();
        let mut i: usize = 0;
        while i < ADDR_SPACE_SIZE_IN_WORDS
            invariant
                0 <= i <= ADDR_SPACE_SIZE_IN_WORDS,
                self.words@.len() == ADDR_SPACE_SIZE_IN_WORDS,
                out@ =~= entries_of(self.words@).subrange(0, i as int),
            decreases ADDR_SPACE_SIZE_IN_WORDS - i,
        {
            out.push((i as Addr, self.words[i]));
            i = i + 1;
        }
        out
    }

    /// The image of an assembled program: every word, set or not.
    pub fn from_assembled(memory: &AssembledProgram) -> (r: MemoryDump)
        requires
            memory.wf(),
        ensures
            r.wf(),
            forall|i: int| 0 <= i < ADDR_SPACE_SIZE_IN_WORDS ==> #[trigger] r@[i] == memory@[i].0,
    {
        let mut words = vec![0u16; ADDR_SPACE_SIZE_IN_WORDS];
        let mut i: usize = 0;
        while i < ADDR_SPACE_SIZE_IN_WORDS
            invariant
                0 <= i <= ADDR_SPACE_SIZE_IN_WORDS,
                memory.words@.len() == ADDR_SPACE_SIZE_IN_WORDS,
                words@.len() == ADDR_SPACE_SIZE_IN_WORDS,
                forall|j: int| 0 <= j < i ==> #[trigger] words@[j] == memory.words@[j].0,
            decreases ADDR_SPACE_SIZE_IN_WORDS - i,
        {
            words.set(i, memory.words[i].0);
            i = i + 1;
        }
        MemoryDump { words }
    }
}

/// The image of the given loadable entries over a blank image.
pub fn to_memory_dump(loadable: &[(Addr, Word)]) -> (r: MemoryDump)
    ensures
        r@ == layered(Seq::new(ADDR_SPACE_SIZE_IN_WORDS as nat, |i: int| 0u16), loadable@),
        r.wf(),
{
    let mut mem = MemoryDump::blank();
    mem.layer_loadable(loadable);
    mem
}

/// A run of loadable entries that can be turned into a memory image.
pub trait LoadableIterator: Sized {
    fn to_memory_dump(self) -> MemoryDump;
}

impl LoadableIterator for Vec<(Addr, Word)> {
    /// Each entry's word at its address, over a blank image; of two entries for
    /// one address the later wins.
    fn to_memory_dump(self) -> (r: MemoryDump)
        ensures
            r@ == layered(Seq::new(ADDR_SPACE_SIZE_IN_WORDS as nat, |i: int| 0u16), self@),
            r.wf(),
    {
        to_memory_dump(self.as_slice())
    }
}

/// An assembled program: for each address, a word and whether the program sets it.
#[derive(Clone)]
pub struct AssembledProgram {
    words: Vec<(Word, bool)>,
}

impl AssembledProgram {
    /// The image covers the whole address space.
    pub open spec fn wf(&self) -> bool {
        self@.len() == ADDR_SPACE_SIZE_IN_WORDS
    }

    pub closed spec fn view(&self) -> Seq<(Word, bool)> {
        self.words@
    }

    /// A program of the given words; `mem` must cover the whole address space.
    pub fn new(mem: Vec<(Word, bool)>) -> (r: AssembledProgram)
        requires
            mem@.len() == ADDR_SPACE_SIZE_IN_WORDS,
        ensures
            r@ == mem@,
            r.wf(),
    {
        AssembledProgram { words: mem }
    }

    /// The words that the program sets, paired with their addresses, in address order.
    pub fn loadable(&self) -> (r: Vec<(Addr, Word)>)
        requires
            self.wf(),
        ensures
            r@ == set_entries(self@),
    {
        let mut out: Vec<(Addr, Word)> = Vec::new();
        let mut i: usize = 0;
        while i < ADDR_SPACE_SIZE_IN_WORDS
            invariant
                0 <= i <= ADDR_SPACE_SIZE_IN_WORDS,
                self.words@.len() == ADDR_SPACE_SIZE_IN_WORDS,
                out@ == set_entries(self.words@.subrange(0, i as int)),
            decreases ADDR_SPACE_SIZE_IN_WORDS - i,
        {
            let (w, set) = self.words[i];
            assert(self.words@.subrange(0, i + 1).drop_last() =~= self.words@.subrange(0, i as int));
            if set {
                out.push((i as Addr, w));
            }
            i = i + 1;
        }
        assert(self.words@.subrange(0, i as int) =~= self.words@);
        out
    }
}

/// Layering every entry of an image onto any image gives back that image.
pub proof fn law_layer_own_entries(base: Seq<Word>, dump: Seq<Word>)
    requires
        base.len() == ADDR_SPACE_SIZE_IN_WORDS,
        dump.len() == ADDR_SPACE_SIZE_IN_WORDS,
    ensures
        layered(base, entries_of(dump)) == dump,
{
    let items = entries_of(dump);
    lemma_layered_len(base, items);
    assert forall|a: int| 0 <= a < ADDR_SPACE_SIZE_IN_WORDS implies layered(base, items)[a]
        == dump[a] by {
        lemma_layered_at(base, items, a);
        assert(items[a].0 == a);
        assert forall|k: int| a < k < items.len() implies items[k].0 != a by {
            assert(items[k].0 == k);
        }
    }
    assert(layered(base, items) =~= dump);
}

} // verus!
