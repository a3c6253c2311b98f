use crate::assemblers::release::errors::AssembleError;
use crate::assemblers::release::fragment::{
    chain_len, chained, lemma_chain_monotone, lemma_chain_sum, payload_sum, Fragment,
    FragmentIterator, FragmentKind, NO_NEXT,
};
use crate::assemblers::release::names::NameTable;
use crate::models::assembler::PreassembledModule;
use crate::models::program::{distinct, lemma_place_of, place_of};
use vstd::prelude::*;

verus! {

/// The symbols that `names` and `offsets` give: every name with the offset
/// that stands at its place.
pub open spec fn symbol_map(names: Seq<Seq<char>>, offsets: Seq<u32>) -> Map<Seq<char>, usize> {
    Map::new(
        |name: Seq<char>| names.contains(name),
        |name: Seq<char>| offsets[place_of(names, name)] as usize,
    )
}

/// The symbols that a list of names and offsets gives when it is read from
/// its start to `count`: where a name stands more than once, its last
/// offset counts.
pub open spec fn listed_symbols(symbols: Seq<(String, u32)>, count: int) -> Map<Seq<char>, usize>
    decreases count,
{
    if count <= 0 {
        Map::empty()
    } else {
        listed_symbols(symbols, count - 1).insert(
            symbols[count - 1].0@,
            symbols[count - 1].1 as usize,
        )
    }
}

/// Appends `bytes` to `sink`.
pub fn append_bytes(sink: &mut Vec<u8>, bytes: &[u8])
    ensures
        final(sink)@ == old(sink)@ + bytes@,
{
    sink.extend_from_slice(bytes);
    proof {
        assert(sink@ =~= old(sink)@ + bytes@);
    }
}

/// The finished result of one assembly session: the bytes, every
/// instruction in its final form, and the offset of every named label. A
/// module is made once and never changes.
pub struct X64ReleasePreassembledModule {
    names: NameTable,
    offsets: Vec<u32>,
    buffer: Vec<u8>,
    fragments: Vec<Fragment>,
}

impl X64ReleasePreassembledModule {
    /// The names of the module's symbols.
    pub closed spec fn symbol_names(&self) -> Seq<Seq<char>> {
        self.names@
    }

    /// The offsets of the module's symbols, each at the place of its name.
    pub closed spec fn symbol_offsets(&self) -> Seq<u32> {
        self.offsets@
    }

    /// The chain of fragments that the bytes are made of.
    pub closed spec fn fragments(&self) -> Seq<Fragment> {
        self.fragments@
    }

    /// In a module that is well formed no name stands twice, every name has
    /// its offset, and the bytes are as many as the chain of fragments
    /// holds.
    pub proof fn lemma_wf(&self)
        requires
            self.wf(),
        ensures
            distinct(self.symbol_names()),
            self.symbol_offsets().len() == self.symbol_names().len(),
            chained(self.fragments()),
            chain_len(self.fragments()) == self.content().len(),
    {
        self.names.lemma_wf();
    }

    /// The module of the given parts.
    pub(crate) fn from_parts(
        names: NameTable,
        offsets: Vec<u32>,
        buffer: Vec<u8>,
        fragments: Vec<Fragment>,
    ) -> (module: Self)
        requires
            names.wf(),
            offsets@.len() == names@.len(),
            chained(fragments@),
            chain_len(fragments@) == buffer@.len(),
        ensures
            module.wf(),
            module.content() == buffer@,
            module.symbol_names() == names@,
            module.symbol_offsets() == offsets@,
            module.fragments() == fragments@,
    {
        Self { names, offsets, buffer, fragments }
    }

    /// The module that holds `buffer` as one span of bytes, with the symbols
    /// that `symbols` lists. Where a name is listed more than once, its last
    /// offset counts.
    pub fn new(symbols: Vec<(String, u32)>, buffer: Vec<u8>) -> (module: Self)
        requires
            symbols@.len() <= u32::MAX,
            buffer@.len() <= u32::MAX,
        ensures
            module.wf(),
            module.content() == buffer@,
            module.symbol_table() == listed_symbols(symbols@, symbols@.len() as int),
            module.fragments() == seq![
                Fragment {
                    next_position: NO_NEXT,
                    buffer_length: buffer@.len() as u32,
                    offset: 0,
                    kind: FragmentKind::Static,
                },
            ],
    {
        let mut names = NameTable::new();
        let mut offsets: Vec<u32> = Vec::new();
        let mut idx: usize = 0;
        while idx < symbols.len()
            invariant
                idx <= symbols@.len() <= u32::MAX,
                names.wf(),
                names@.len() <= idx,
                offsets@.len() == names@.len(),
                symbol_map(names@, offsets@) == listed_symbols(symbols@, idx as int),
            decreases symbols@.len() - idx,
        {
            let ghost names_before = names@;
            let ghost offsets_before = offsets@;
            let name = &symbols[idx].0;
            let offset = symbols[idx].1;
            let number = names.intern(name.as_str()) as usize;
            if number < offsets.len() {
                offsets.set(number, offset);
            } else {
                offsets.push(offset);
            }
            proof {
                names.lemma_wf();
                let expected = listed_symbols(symbols@, idx as int).insert(
                    name@,
                    offset as usize,
                );
                assert forall|other: Seq<char>| #[trigger]
                    symbol_map(names@, offsets@).contains_key(other) implies expected.contains_key(
                    other,
                ) && expected[other] == symbol_map(names@, offsets@)[other] by {
                    let at = place_of(names@, other);
                    assert(names@[at] == other);
                    if other != name@ {
                        assert(names_before.contains(other));
                        assert(names_before[at] == other);
                        assert(distinct(names_before)) by {
                            if names_before != names@ {
                                assert(names_before =~= names@.subrange(
                                    0,
                                    names_before.len() as int,
                                ));
                            }
                        }
                        lemma_place_of(names_before, at);
                    } else {
                        lemma_place_of(names@, number as int);
                    }
                }
                assert forall|other: Seq<char>| #[trigger]
                    expected.contains_key(other) implies symbol_map(
                    names@,
                    offsets@,
                ).contains_key(other) by {
                    if other != name@ {
                        assert(symbol_map(names_before, offsets_before).contains_key(other));
                        let at = place_of(names_before, other);
                        assert(names@[at] == other);
                    } else {
                        assert(names@[number as int] == other);
                    }
                }
                assert(symbol_map(names@, offsets@) =~= expected);
            }
            idx += 1;
        }
        let mut fragments: Vec<Fragment> = Vec::new();
        fragments.push(
            Fragment {
                next_position: NO_NEXT,
                buffer_length: buffer.len() as u32,
                offset: 0,
                kind: FragmentKind::Static,
            },
        );
        Self { names, offsets, buffer, fragments }
    }

    /// A walk along the fragments of the module.
    pub fn iter_fragments(&self) -> (iterator: FragmentIterator<'_>)
        ensures
            iterator.fragments() == self.fragments(),
            iterator.position() == 0,
    {
        FragmentIterator::new(&self.fragments)
    }

}

impl PreassembledModule for X64ReleasePreassembledModule {
    type AssembleError = AssembleError;

    /// What a module keeps true: every name has one offset, and the
    /// fragments form a chain whose payloads make up the bytes.
    closed spec fn wf(&self) -> bool {
        &&& self.names.wf()
        &&& self.offsets@.len() == self.names@.len()
        &&& chained(self.fragments@)
        &&& chain_len(self.fragments@) == self.buffer@.len()
    }

    /// The bytes of the module.
    closed spec fn content(&self) -> Seq<u8> {
        self.buffer@
    }

    /// The offset of every symbol, by its name.
    open spec fn symbol_table(&self) -> Map<Seq<char>, usize> {
        symbol_map(self.symbol_names(), self.symbol_offsets())
    }

    /// The offset of the symbol `name`, and `None` where the module has no
    /// such symbol.
    fn symbol_position(&self, name: &str) -> (position: Option<usize>) {
        proof {
            self.names.lemma_wf();
        }
        match self.names.lookup(name) {
            Some(number) => {
                proof {
                    lemma_place_of(self.names@, number as int);
                }
                Some(self.offsets[number as usize] as usize)
            },
            None => None,
        }
    }

    /// Every symbol of the module with its offset, each once.
    fn symbols(&self) -> (symbols: Vec<(String, usize)>)
        ensures
            symbols@.len() == self.symbol_names().len(),
            forall|i: int|
                0 <= i < symbols@.len() ==> (#[trigger] symbols@[i]).0@ == self.symbol_names()[i]
                    && symbols@[i].1 == self.symbol_offsets()[i],
    {
        proof {
            self.names.lemma_wf();
        }
        let mut symbols: Vec<(String, usize)> = Vec::new();
        let mut idx: usize = 0;
        while idx < self.names.len()
            invariant
                self.wf(),
                distinct(self.names@),
                idx <= self.names@.len(),
                symbols@.len() == idx,
                forall|i: int|
                    0 <= i < idx ==> (#[trigger] symbols@[i]).0@ == self.names@[i] && symbols@[i].1
                        == self.offsets@[i],
            decreases self.names@.len() - idx,
        {
            let name = self.names.name(idx).clone();
            symbols.push((name, self.offsets[idx] as usize));
            idx += 1;
        }
        proof {
            assert forall|i: int| 0 <= i < symbols@.len() implies self.symbol_table().contains_key(
                (#[trigger] symbols@[i]).0@,
            ) && self.symbol_table()[symbols@[i].0@] == symbols@[i].1 by {
                lemma_place_of(self.names@, i);
            }
            assert forall|name: Seq<char>| #[trigger]
                self.symbol_table().contains_key(name) implies exists|i: int|
                0 <= i < symbols@.len() && (#[trigger] symbols@[i]).0@ == name by {
                let at = place_of(self.names@, name);
                assert(symbols@[at].0@ == name);
            }
            assert forall|i: int, j: int| 0 <= i < j < symbols@.len() implies (
            #[trigger] symbols@[i]).0@ != (#[trigger] symbols@[j]).0@ by {
                assert(self.names@[i] != self.names@[j]);
            }
        }
        symbols
    }

    /// The number of bytes of the module, which is what its fragments hold
    /// together.
    fn content_length(&self) -> (length: usize)
        ensures
            length == payload_sum(self.fragments(), self.fragments().len() as int),
    {
        proof {
            vstd::std_specs::vec::axiom_spec_len(&self.buffer);
        }
        proof {
            lemma_chain_sum(self.fragments@, self.fragments@.len() as int);
        }
        let mut walk = self.iter_fragments();
        let mut length: usize = 0;
        let ghost mut at: int = 0;
        loop
            invariant
                self.wf(),
                self.buffer@.len() <= usize::MAX,
                payload_sum(self.fragments@, self.fragments@.len() as int) == chain_len(
                    self.fragments@,
                ),
                walk.fragments() == self.fragments@,
                0 <= at <= self.fragments@.len(),
                at < self.fragments@.len() ==> walk.position() == at && length
                    == self.fragments@[at].offset,
                at == self.fragments@.len() ==> walk.position() == NO_NEXT && length == chain_len(
                    self.fragments@,
                ),
            decreases self.fragments@.len() - at,
        {
            match walk.next() {
                Some(fragment) => {
                    proof {
                        lemma_chain_monotone(self.fragments@, at);
                    }
                    length = length + fragment.buffer_length as usize;
                    proof {
                        at = at + 1;
                    }
                },
                None => {
                    return length;
                },
            }
        }
    }

    /// Appends the bytes of the module to `output` and returns their number.
    /// A module holds no label without a place, and this sink takes
    /// whatever it is given: the call always succeeds.
    fn assemble(&self, output: &mut Vec<u8>) -> (result: Result<usize, AssembleError>)
        ensures
            result is Ok,
    {
        append_bytes(output, self.buffer.as_slice());
        Ok(self.buffer.len())
    }
}

} // verus!
