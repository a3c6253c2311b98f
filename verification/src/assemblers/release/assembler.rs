use crate::assemblers::release::errors::{EmitError, PreassembleError, SetLabelError};
use crate::assemblers::release::fragment::{
    chain_len, chained, fragments_under, lemma_chain_monotone, lemma_fragments_chained,
    resolved_fragments, Fragment, FragmentKind, NO_NEXT,
};
use crate::assemblers::release::names::NameTable;
use crate::assemblers::release::preassembled_module::{
    append_bytes, symbol_map, X64ReleasePreassembledModule,
};
use crate::encoder::instruction::encode;
use crate::encoder::relative::{
    can_shorten, encode_relative, relative_size, relative_valid, reserve_relative, wide_len,
};
use crate::models::assembler::{Assembler, PreassembledModule};
use crate::models::instruction::Instruction;
use crate::models::label::Label;
use crate::models::program::{
    all_wide, lemma_place_is_kept, lemma_place_of, place_of, LabelPosition, Piece, Program,
    MAX_CONTENT_LENGTH,
};
use std::collections::HashMap;
use vstd::prelude::*;

verus! {

broadcast use vstd::std_specs::hash::group_hash_axioms;

/// The span that a fragment stands for: the bytes of its payload, or its
/// instruction.
pub open spec fn piece_of(fragment: Fragment, buffer: Seq<u8>) -> Piece {
    match fragment.kind {
        FragmentKind::Static => Piece::Bytes(
            buffer.subrange(fragment.offset as int, fragment.offset + fragment.buffer_length),
        ),
        FragmentKind::DynamicInstruction(instr) => Piece::Relative(instr),
    }
}

/// The spans that a chain of fragments over `buffer` stands for.
pub open spec fn pieces_of(fragments: Seq<Fragment>, buffer: Seq<u8>) -> Seq<Piece> {
    Seq::new(fragments.len(), |i: int| piece_of(fragments[i], buffer))
}

/// The error with which an instruction is refused: that of its encoding,
/// where it has none, and else that of a session without room.
pub open spec fn emit_error(instr: Instruction) -> EmitError {
    match Program::instruction_len(instr) {
        Err(error) => EmitError::Encoding(error),
        Ok(_) => EmitError::OutOfMemory,
    }
}

/// An assembly session. Bytes and instructions are added at its end, and
/// labels are bound to the place that the end has reached. An instruction
/// that addresses a label is kept as it is, with room for its longest
/// encoding: how long it will be is known only when every label has its
/// place.
pub struct X64ReleaseAssembler {
    buffer: Vec<u8>,
    fragments: Vec<Fragment>,
    labels: NameTable,
    labels_position: HashMap<u32, LabelPosition>,
    current_fragment_position: u32,
}

impl View for X64ReleaseAssembler {
    type V = Program;

    closed spec fn view(&self) -> Program {
        Program {
            pieces: pieces_of(self.fragments@, self.buffer@),
            names: self.labels@,
            bindings: self.labels_position@,
        }
    }
}

impl X64ReleaseAssembler {
    /// Under the longest forms every span starts where its fragment says.
    proof fn lemma_offsets(&self, i: int)
        requires
            self.wf(),
            0 <= i <= self.fragments@.len(),
        ensures
            self@.pieces.len() == self.fragments@.len(),
            self@.start(all_wide(self@.pieces.len()), i) == if i < self.fragments@.len() {
                self.fragments@[i].offset as int
            } else {
                self.buffer@.len() as int
            },
        decreases i,
    {
        if i > 0 {
            self.lemma_offsets(i - 1);
            let fragment = self.fragments@[i - 1];
            assert(self@.pieces[i - 1] == piece_of(fragment, self.buffer@));
            assert(fragment.offset + fragment.buffer_length <= self.buffer@.len()) by {
                lemma_chain_monotone(self.fragments@, i - 1);
            }
        }
    }

    /// A session that is well formed holds a program that is well formed,
    /// one span for every fragment, the last of them a span of bytes.
    pub proof fn lemma_view_well_formed(&self)
        requires
            self.wf(),
        ensures
            self@.well_formed(),
            self@.pieces.len() > 0,
            self@.pieces.last() is Bytes,
            self@.reserved_len() == self.spec_current_len(),
    {
        self.labels.lemma_wf();
        self.lemma_offsets(self.fragments@.len() as int);
        assert forall|i: int| 0 <= i < self@.pieces.len() implies (#[trigger] self@.pieces[i]
            matches Piece::Relative(instr) ==> relative_valid(instr)) by {
            assert(self@.pieces[i] == piece_of(self.fragments@[i], self.buffer@));
            assert(self.fragments@[i].kind is DynamicInstruction ==> relative_valid(
                self.fragments@[i].kind->DynamicInstruction_0,
            ));
        }
    }

    /// A session whose instructions are those it had before addresses the
    /// labels that it addressed before.
    proof fn lemma_keeps_references(&self, before: &Self)
        requires
            self@.pieces.len() == before@.pieces.len(),
            forall|i: int|
                0 <= i < self@.pieces.len() ==> (self@.pieces[i] is Relative || before@.pieces[i]
                    is Relative ==> #[trigger] self@.pieces[i] == before@.pieces[i]),
        ensures
            forall|id: u32| before@.refers_to(id) == #[trigger] self@.refers_to(id),
    {
        assert forall|id: u32| before@.refers_to(id) == #[trigger] self@.refers_to(id) by {
            self@.lemma_refers_alike(before@, id);
        }
    }

    /// The number of bytes the session holds, every instruction that
    /// addresses a label counted at its longest.
    pub closed spec fn spec_current_len(&self) -> u32 {
        self.buffer@.len() as u32
    }

    /// The number of bytes the session holds, every instruction that
    /// addresses a label counted at its longest.
    #[verifier::when_used_as_spec(spec_current_len)]
    pub fn current_len(&self) -> (len: u32)
        requires
            self.wf(),
        ensures
            len == self.current_len(),
            len == self@.reserved_len(),
            len <= MAX_CONTENT_LENGTH,
    {
        proof {
            self.lemma_view_well_formed();
        }
        self.buffer.len() as u32
    }

    /// The session that holds nothing: no byte, no name, no bound label.
    pub fn new() -> (assembler: Self)
        ensures
            assembler.wf(),
            assembler@ == Program::empty(),
            assembler@.reserved_len() == 0,
    {
        let mut fragments: Vec<Fragment> = Vec::new();
        fragments.push(
            Fragment {
                next_position: NO_NEXT,
                buffer_length: 0,
                offset: 0,
                kind: FragmentKind::Static,
            },
        );
        let assembler = Self {
            buffer: Vec::with_capacity(2048),
            fragments,
            labels: NameTable::new(),
            labels_position: HashMap::new(),
            current_fragment_position: 0,
        };
        proof {
            assert(assembler@.pieces =~= seq![Piece::Bytes(Seq::<u8>::empty())]) by {
                assert(assembler.buffer@.subrange(0, 0) =~= Seq::<u8>::empty());
            }
            assembler.lemma_view_well_formed();
        }
        assembler
    }

    /// Adds an instruction that addresses a label: a fragment of its own
    /// with `room` bytes for its longest encoding, and behind it an empty
    /// fragment for what follows.
    fn add_relative(&mut self, instr: &Instruction, room: u8) -> (result: Result<usize, EmitError>)
        requires
            old(self).wf(),
            relative_valid(*instr),
            room == wide_len(*instr),
        ensures
            final(self).wf(),
            old(self)@.accepts(*instr) <==> result is Ok,
            result matches Ok(len) ==> len == room && final(self)@.reserved_len() == old(
                self,
            )@.reserved_len() + room,
            result matches Err(error) ==> error == EmitError::OutOfMemory,
            final(self)@ == old(self)@.with_instruction(*instr),
            forall|id: u32| #[trigger]
                final(self)@.refers_to(id) <==> old(self)@.refers_to(id) || (result is Ok
                    && instr.label() == Some(Label { id })),
    {
        proof {
            self.lemma_view_well_formed();
        }
        if room as usize > (MAX_CONTENT_LENGTH as usize) - self.buffer.len() {
            return Err(EmitError::OutOfMemory);
        }
        let position = self.current_fragment_position as usize;
        let offset = self.buffer.len() as u32;
        let mut idx: u8 = 0;
        while idx < room
            invariant
                idx <= room,
                self.buffer@.len() == offset + idx,
                self.buffer@.subrange(0, offset as int) == old(self).buffer@,
                self.fragments == old(self).fragments,
                self.labels == old(self).labels,
                self.labels_position == old(self).labels_position,
                self.current_fragment_position == old(self).current_fragment_position,
            decreases room - idx,
        {
            let ghost before = self.buffer@;
            self.buffer.push(0);
            proof {
                assert(self.buffer@.subrange(0, offset as int) =~= before.subrange(
                    0,
                    offset as int,
                ));
            }
            idx += 1;
        }
        let mut last = self.fragments[position];
        last.next_position = self.current_fragment_position + 1;
        self.fragments.set(position, last);
        self.fragments.push(
            Fragment {
                next_position: self.current_fragment_position + 2,
                buffer_length: room as u32,
                offset,
                kind: FragmentKind::DynamicInstruction(*instr),
            },
        );
        self.fragments.push(
            Fragment {
                next_position: NO_NEXT,
                buffer_length: 0,
                offset: offset + room as u32,
                kind: FragmentKind::Static,
            },
        );
        self.current_fragment_position = self.current_fragment_position + 2;
        proof {
            let before = old(self)@.pieces;
            let count = before.len() as int;
            assert forall|i: int| 0 <= i < count implies piece_of(
                self.fragments@[i],
                self.buffer@,
            ) == before[i] by {
                lemma_chain_monotone(old(self).fragments@, i);
                assert(before[i] == piece_of(old(self).fragments@[i], old(self).buffer@));
                let f = old(self).fragments@[i];
                assert(self.buffer@.subrange(f.offset as int, f.offset + f.buffer_length)
                    =~= self.buffer@.subrange(0, offset as int).subrange(
                    f.offset as int,
                    f.offset + f.buffer_length,
                ));
            }
            assert(piece_of(self.fragments@[count + 1], self.buffer@) == Piece::Bytes(
                Seq::<u8>::empty(),
            )) by {
                assert(self.buffer@.subrange(
                    self.buffer@.len() as int,
                    self.buffer@.len() as int,
                ) =~= Seq::<u8>::empty());
            }
            assert(self@.pieces =~= old(self)@.with_relative(*instr).pieces);
            assert forall|id: u32| #[trigger]
                self.labels_position@.contains_key(id) implies self@.anchored(
                self.labels_position@[id],
            ) by {
                let at = self.labels_position@[id];
                assert(old(self)@.anchored(at));
                assert(self@.pieces[at.fragment_position as int]
                    == before[at.fragment_position as int]);
            }
            assert(self.wf());
            self.lemma_view_well_formed();
            assert forall|id: u32| #[trigger]
                self@.refers_to(id) <==> old(self)@.refers_to(id) || instr.label() == Some(
                    Label { id },
                ) by {
                old(self)@.lemma_refers_with_relative(*instr, id);
            }
        }
        Ok(room as usize)
    }

    /// Whether `starts` holds, for every span and for the end, the offset
    /// that the layout under `forms` gives it.
    spec fn laid_out(&self, forms: Seq<bool>, starts: Seq<u32>) -> bool {
        &&& forms.len() == self.fragments@.len()
        &&& starts.len() == self.fragments@.len() + 1
        &&& forall|j: int|
            0 <= j <= self.fragments@.len() ==> #[trigger] starts[j] == self@.start(forms, j)
    }

    /// The label that keeps the session from being finished, if there is
    /// one: the label of the first instruction whose label was not bound, or
    /// else the first named label that was not bound.
    fn find_unbound(&self) -> (found: Option<Label>)
        requires
            self.wf(),
        ensures
            found is None <==> self@.fully_bound(),
            found matches Some(label) ==> self@.reports_unbound(label),
    {
        let mut idx: usize = 0;
        while idx < self.fragments.len()
            invariant
                self.wf(),
                idx <= self.fragments@.len(),
                forall|j: int| 0 <= j < idx ==> !self@.dangling_reference(j),
            decreases self.fragments@.len() - idx,
        {
            proof {
                assert(self@.pieces[idx as int] == piece_of(
                    self.fragments@[idx as int],
                    self.buffer@,
                ));
            }
            match self.fragments[idx].kind {
                FragmentKind::DynamicInstruction(instr) => {
                    match instr.label() {
                        Some(label) => {
                            if !self.labels_position.contains_key(&label.id()) {
                                proof {
                                    assert(self@.dangling_reference(idx as int));
                                }
                                return Some(label);
                            }
                        },
                        None => {},
                    }
                },
                FragmentKind::Static => {},
            }
            idx += 1;
        }
        let count = self.labels.len();
        let mut id: usize = 0;
        while id < count
            invariant
                self.wf(),
                count == self@.names.len(),
                id <= count <= u32::MAX,
                forall|j: int| !self@.dangling_reference(j),
                forall|j: int| 0 <= j < id ==> !self@.dangling_name(j),
            decreases count - id,
        {
            if !self.labels_position.contains_key(&(id as u32)) {
                let label = Label::new(id as u32);
                proof {
                    assert(self@.dangling_name(label.id as int));
                }
                return Some(label);
            }
            id += 1;
        }
        None
    }

    /// The number of instructions that have a short form.
    fn count_candidates(&self) -> (count: usize)
        requires
            self.wf(),
        ensures
            count == self@.pass_bound(),
    {
        let ghost seed = all_wide(self@.pieces.len());
        let mut count: usize = 0;
        let mut idx: usize = 0;
        while idx < self.fragments.len()
            invariant
                self.wf(),
                seed == all_wide(self@.pieces.len()),
                idx <= self.fragments@.len() == self@.pieces.len(),
                count == self@.candidates(seed, idx as int),
                count <= idx,
            decreases self.fragments@.len() - idx,
        {
            proof {
                assert(self@.pieces[idx as int] == piece_of(
                    self.fragments@[idx as int],
                    self.buffer@,
                ));
            }
            match self.fragments[idx].kind {
                FragmentKind::DynamicInstruction(instr) => {
                    if can_shorten(&instr) {
                        count += 1;
                    }
                },
                FragmentKind::Static => {},
            }
            idx += 1;
        }
        count
    }

    /// The offsets at which the spans start under `forms`, and behind them
    /// the offset of the end.
    fn layout(&self, forms: &Vec<bool>) -> (starts: Vec<u32>)
        requires
            self.wf(),
            forms@.len() == self.fragments@.len(),
        ensures
            self.laid_out(forms@, starts@),
    {
        let mut starts: Vec<u32> = Vec::new();
        let mut at: u32 = 0;
        let mut idx: usize = 0;
        starts.push(0);
        while idx < self.fragments.len()
            invariant
                self.wf(),
                forms@.len() == self.fragments@.len() == self@.pieces.len(),
                idx <= self.fragments@.len(),
                starts@.len() == idx + 1,
                at == self@.start(forms@, idx as int),
                forall|j: int| 0 <= j <= idx ==> #[trigger] starts@[j] == self@.start(forms@, j),
            decreases self.fragments@.len() - idx,
        {
            let fragment = &self.fragments[idx];
            let len: u32 = match fragment.kind {
                FragmentKind::Static => fragment.buffer_length,
                FragmentKind::DynamicInstruction(instr) => relative_size(&instr, forms[idx]) as u32,
            };
            proof {
                self.lemma_view_well_formed();
                self@.lemma_within_reserved(forms@, idx + 1);
                lemma_chain_monotone(self.fragments@, idx as int);
                assert(self@.pieces[idx as int] == piece_of(*fragment, self.buffer@));
                assert(len == self@.pieces[idx as int].len(forms@[idx as int]));
            }
            at = at + len;
            starts.push(at);
            idx += 1;
        }
        starts
    }

    /// The displacement of the instruction in the fragment at `idx` under
    /// the layout in `starts`.
    fn displacement_at(
        &self,
        Ghost(forms): Ghost<Seq<bool>>,
        starts: &Vec<u32>,
        idx: usize,
        instr: &Instruction,
    ) -> (disp: i32)
        requires
            self.wf(),
            self.laid_out(forms, starts@),
            idx < self.fragments@.len(),
            self.fragments@[idx as int].kind == FragmentKind::DynamicInstruction(*instr),
            !self@.dangling_reference(idx as int),
        ensures
            disp == self@.displacement(forms, idx as int),
    {
        proof {
            self.lemma_view_well_formed();
            assert(self@.pieces[idx as int] == piece_of(self.fragments@[idx as int], self.buffer@));
            self@.lemma_displacement_fits(forms, idx as int);
        }
        match instr.label() {
            Some(label) => match self.labels_position.get(&label.id()) {
                Some(position) => {
                    proof {
                        assert(self@.anchored(*position));
                        self@.lemma_within_reserved(forms, position.fragment_position as int);
                        self@.lemma_within_reserved(forms, idx + 1);
                    }
                    let target = starts[position.fragment_position as usize] as i64
                        + position.relative_offset as i64 + instr.label_offset() as i64;
                    (target - starts[idx + 1] as i64) as i32
                },
                None => 0,
            },
            None => 0,
        }
    }

    /// One pass of relaxation over `forms`, under the layout in `starts`.
    /// Returns whether any instruction took its short form.
    fn relax_once(&self, forms: &mut Vec<bool>, starts: &Vec<u32>) -> (changed: bool)
        requires
            self.wf(),
            self@.fully_bound(),
            self.laid_out(old(forms)@, starts@),
        ensures
            final(forms)@ == self@.relax_pass(old(forms)@),
            changed <==> final(forms)@ != old(forms)@,
    {
        let ghost before = forms@;
        let ghost after = self@.relax_pass(before);
        let mut changed = false;
        let mut idx: usize = 0;
        while idx < self.fragments.len()
            invariant
                self.wf(),
                self@.fully_bound(),
                self.laid_out(before, starts@),
                after == self@.relax_pass(before),
                idx <= self.fragments@.len() == self@.pieces.len(),
                forms@.len() == self.fragments@.len(),
                forall|j: int| 0 <= j < idx ==> forms@[j] == after[j],
                forall|j: int| idx <= j < forms@.len() ==> forms@[j] == before[j],
                changed <==> exists|j: int| 0 <= j < idx && forms@[j] != before[j],
            decreases self.fragments@.len() - idx,
        {
            let ghost entered = forms@;
            proof {
                assert(self@.pieces[idx as int] == piece_of(
                    self.fragments@[idx as int],
                    self.buffer@,
                ));
                assert(!self@.dangling_reference(idx as int));
            }
            if !forms[idx] {
                match self.fragments[idx].kind {
                    FragmentKind::DynamicInstruction(instr) => {
                        if can_shorten(&instr) {
                            let disp = self.displacement_at(Ghost(before), starts, idx, &instr);
                            let offset = instr.label_offset();
                            if -128 <= disp && disp <= 127 && -128 <= offset && offset <= 127 {
                                forms.set(idx, true);
                                changed = true;
                            }
                        }
                    },
                    FragmentKind::Static => {},
                }
            }
            proof {
                assert(forms@[idx as int] == after[idx as int]);
                if forms@[idx as int] != before[idx as int] {
                    assert(changed);
                } else {
                    assert(forms@ =~= entered);
                }
            }
            idx += 1;
        }
        proof {
            assert(forms@ =~= after);
            if changed {
                let j = choose|j: int| 0 <= j < idx && forms@[j] != before[j];
                assert(forms@[j] != before[j]);
            } else {
                assert(forms@ =~= before);
            }
        }
        changed
    }

    /// The bytes and the fragments of the program under `forms`.
    fn emit(&self, forms: &Vec<bool>, starts: &Vec<u32>) -> (parts: (Vec<u8>, Vec<Fragment>))
        requires
            self.wf(),
            self@.fully_bound(),
            self@.sound(forms@),
            self.laid_out(forms@, starts@),
        ensures
            parts.0@ == self@.emitted(forms@, self@.pieces.len() as int),
            parts.1@ == fragments_under(self@, forms@),
    {
        let mut bytes: Vec<u8> = Vec::new();
        let mut fragments: Vec<Fragment> = Vec::new();
        let mut idx: usize = 0;
        proof {
            self.lemma_view_well_formed();
        }
        while idx < self.fragments.len()
            invariant
                self.wf(),
                self@.well_formed(),
                self@.fully_bound(),
                self@.sound(forms@),
                self.laid_out(forms@, starts@),
                idx <= self.fragments@.len() == self@.pieces.len(),
                bytes@ == self@.emitted(forms@, idx as int),
                fragments@.len() == idx,
                forall|j: int|
                    0 <= j < idx ==> #[trigger] fragments@[j] == fragments_under(self@, forms@)[j],
            decreases self.fragments@.len() - idx,
        {
            let fragment = self.fragments[idx];
            proof {
                assert(self@.pieces[idx as int] == piece_of(fragment, self.buffer@));
                assert(!self@.dangling_reference(idx as int));
                lemma_chain_monotone(self.fragments@, idx as int);
                self@.lemma_within_reserved(forms@, idx as int);
                self@.lemma_within_reserved(forms@, idx + 1);
            }
            match fragment.kind {
                FragmentKind::Static => {
                    append_bytes(
                        &mut bytes,
                        vstd::slice::slice_subrange(
                            self.buffer.as_slice(),
                            fragment.offset as usize,
                            (fragment.offset + fragment.buffer_length) as usize,
                        ),
                    );
                },
                FragmentKind::DynamicInstruction(instr) => {
                    let disp = self.displacement_at(Ghost(forms@), starts, idx, &instr);
                    let encoded = encode_relative(&instr, disp, forms[idx]);
                    append_bytes(&mut bytes, encoded.as_slice());
                },
            }
            fragments.push(
                Fragment {
                    next_position: fragment.next_position,
                    buffer_length: starts[idx + 1] - starts[idx],
                    offset: starts[idx],
                    kind: fragment.kind,
                },
            );
            idx += 1;
        }
        proof {
            assert(fragments@ =~= fragments_under(self@, forms@));
        }
        (bytes, fragments)
    }

    /// The offset of every named label under the layout in `starts`, each at
    /// the place of its name.
    fn resolve_symbols(&self, Ghost(forms): Ghost<Seq<bool>>, starts: &Vec<u32>) -> (offsets: Vec<
        u32,
    >)
        requires
            self.wf(),
            self@.fully_bound(),
            self.laid_out(forms, starts@),
        ensures
            offsets@.len() == self@.names.len(),
            forall|id: int|
                0 <= id < offsets@.len() ==> #[trigger] offsets@[id] == self@.address(
                    forms,
                    self@.bindings[id as u32],
                ),
    {
        let count = self.labels.len();
        let mut offsets: Vec<u32> = Vec::new();
        let mut id: usize = 0;
        proof {
            self.lemma_view_well_formed();
        }
        while id < count
            invariant
                self.wf(),
                self@.well_formed(),
                self@.fully_bound(),
                self.laid_out(forms, starts@),
                count == self@.names.len(),
                id <= count <= u32::MAX,
                offsets@.len() == id,
                forall|j: int|
                    0 <= j < id ==> #[trigger] offsets@[j] == self@.address(
                        forms,
                        self@.bindings[j as u32],
                    ),
            decreases count - id,
        {
            proof {
                assert(!self@.dangling_name(id as int));
            }
            match self.labels_position.get(&(id as u32)) {
                Some(position) => {
                    proof {
                        assert(self@.anchored(*position));
                        let at = position.fragment_position as int;
                        self@.lemma_within_reserved(forms, at + 1);
                        self@.lemma_stretch_shrinks(forms, forms, at, at + 1);
                    }
                    offsets.push(
                        starts[position.fragment_position as usize] + position.relative_offset,
                    );
                },
                None => {
                    offsets.push(0);
                },
            }
            id += 1;
        }
        offsets
    }

}

impl Default for X64ReleaseAssembler {
    /// The session that holds nothing.
    fn default() -> (assembler: Self)
        ensures
            assembler.wf(),
            assembler@ == Program::empty(),
            assembler@.reserved_len() == 0,
    {
        Self::new()
    }
}

impl Assembler for X64ReleaseAssembler {
    type EmitError = EmitError;

    type SetLabelError = SetLabelError;

    type PreassembleError = PreassembleError;

    type PreassembledModule = X64ReleasePreassembledModule;

    /// What the session keeps true of its fragments: they form a chain over
    /// the whole buffer, the last of them holds bytes, and one that holds an
    /// instruction has room for its longest encoding.
    closed spec fn wf(&self) -> bool {
        &&& self.labels.wf()
        &&& chained(self.fragments@)
        &&& self.fragments@.len() == self.current_fragment_position + 1
        &&& chain_len(self.fragments@) == self.buffer@.len() <= MAX_CONTENT_LENGTH
        &&& self.fragments@.len() <= self.buffer@.len() + 1
        &&& self.fragments@.last().kind is Static
        &&& forall|i: int|
            0 <= i < self.fragments@.len() ==> (#[trigger] self.fragments@[i].kind
                matches FragmentKind::DynamicInstruction(instr) ==> relative_valid(instr)
                && self.fragments@[i].buffer_length == wide_len(instr))
        &&& forall|id: u32| #[trigger]
            self.labels_position@.contains_key(id) ==> self@.anchored(self.labels_position@[id])
    }

    open spec fn program(&self) -> Program {
        self@
    }

    proof fn lemma_program_well_formed(&self) {
        self.lemma_view_well_formed();
    }

    fn get_or_create_label(&mut self, name: &str) -> (label: Label) {
        proof {
            self.lemma_view_well_formed();
        }
        let id = self.labels.intern(name);
        proof {
            self.lemma_view_well_formed();
            self.lemma_keeps_references(&*old(self));
            self.labels.lemma_wf();
            lemma_place_of(self.labels@, id as int);
            let before = old(self).labels@;
            assert forall|other: Seq<char>| #[trigger]
                old(self)@.label_of(other) is Some implies self@.label_of(other) == old(
                self,
            )@.label_of(other) by {
                if self.labels@ == before {
                } else {
                    assert(self.labels@ =~= before + seq![name@]);
                    lemma_place_is_kept(before, seq![name@], other);
                    let at = place_of(before, other);
                    assert(self.labels@[at] == other);
                }
            }
        }
        Label::new(id)
    }

    /// Binds `label` to the place that the end of the session has reached.
    ///
    /// # Errors
    /// [`SetLabelError::LabelAlreadyExists`] if the label was bound before;
    /// the label then keeps the place it has.
    fn set_label(&mut self, label: &Label) -> (result: Result<(), SetLabelError>)
        ensures
            result matches Err(error) ==> error == SetLabelError::LabelAlreadyExists,
    {
        proof {
            self.lemma_view_well_formed();
        }
        if self.labels_position.contains_key(&label.id()) {
            return Err(SetLabelError::LabelAlreadyExists);
        }
        let fragment = &self.fragments[self.current_fragment_position as usize];
        let position = LabelPosition {
            fragment_position: self.current_fragment_position,
            relative_offset: self.current_len() - fragment.offset,
        };
        proof {
            assert(self@.pieces.last() == piece_of(self.fragments@.last(), self.buffer@));
        }
        self.labels_position.insert(label.id(), position);
        proof {
            assert(self@.bindings =~= old(self)@.with_binding(label.id).bindings);
            assert(self.wf());
            self.lemma_view_well_formed();
            self.lemma_keeps_references(&*old(self));
        }
        Ok(())
    }

    /// Appends `bytes` to the session and returns their number.
    ///
    /// # Errors
    /// [`EmitError::OutOfMemory`] if the session would then hold more than
    /// [`MAX_CONTENT_LENGTH`] bytes; nothing is added then.
    fn add_bytes(&mut self, bytes: &[u8]) -> (result: Result<usize, EmitError>)
        ensures
            result matches Err(error) ==> error == EmitError::OutOfMemory,
    {
        proof {
            self.lemma_view_well_formed();
        }
        let len = bytes.len();
        if len > (MAX_CONTENT_LENGTH as usize) - self.buffer.len() {
            return Err(EmitError::OutOfMemory);
        }
        let position = self.current_fragment_position as usize;
        let mut fragment = self.fragments[position];
        self.buffer.extend_from_slice(bytes);
        proof {
            assert(self.buffer@ =~= old(self).buffer@ + bytes@);
        }
        fragment.buffer_length = fragment.buffer_length + len as u32;
        self.fragments.set(position, fragment);
        proof {
            let before = old(self)@.pieces;
            let last = before.len() - 1;
            assert(before.last() == piece_of(old(self).fragments@.last(), old(self).buffer@));
            assert forall|i: int| 0 <= i < last implies piece_of(
                self.fragments@[i],
                self.buffer@,
            ) == before[i] by {
                lemma_chain_monotone(old(self).fragments@, i);
                assert(before[i] == piece_of(old(self).fragments@[i], old(self).buffer@));
                let f = self.fragments@[i];
                assert(self.buffer@.subrange(f.offset as int, f.offset + f.buffer_length)
                    =~= old(self).buffer@.subrange(f.offset as int, f.offset + f.buffer_length));
            }
            assert(piece_of(self.fragments@[last], self.buffer@) == Piece::Bytes(
                before.last()->Bytes_0 + bytes@,
            )) by {
                let f = self.fragments@[last];
                assert(self.buffer@.subrange(f.offset as int, f.offset + f.buffer_length)
                    =~= old(self).buffer@.subrange(
                    f.offset as int,
                    old(self).buffer@.len() as int,
                ) + bytes@);
            }
            assert(self@.pieces =~= old(self)@.with_bytes(bytes@).pieces);
            assert forall|id: u32| #[trigger]
                self.labels_position@.contains_key(id) implies self@.anchored(
                self.labels_position@[id],
            ) by {
                let at = self.labels_position@[id];
                assert(old(self)@.anchored(at));
                assert(self@.pieces[at.fragment_position as int] == if at.fragment_position
                    == last {
                    Piece::Bytes(before.last()->Bytes_0 + bytes@)
                } else {
                    before[at.fragment_position as int]
                });
            }
            assert(self.wf());
            self.lemma_view_well_formed();
            self.lemma_keeps_references(&*old(self));
        }
        Ok(len)
    }

    /// Adds one instruction to the session and returns the number of bytes
    /// that it takes. An instruction that addresses no label is encoded at
    /// once, and its bytes are added. One that addresses a label is kept as
    /// it is, in a fragment of its own with room for its longest encoding,
    /// and the number returned is that of this room.
    ///
    /// # Errors
    /// [`EmitError::Encoding`] if the instruction has no encoding, and
    /// [`EmitError::OutOfMemory`] if the session would then hold more than
    /// [`MAX_CONTENT_LENGTH`] bytes; nothing is added then.
    fn add_instruction(&mut self, instr: &Instruction) -> (result: Result<usize, EmitError>)
        ensures
            result matches Err(error) ==> error == emit_error(*instr),
    {
        proof {
            self.lemma_view_well_formed();
        }
        match reserve_relative(instr) {
            Err(error) => Err(EmitError::Encoding(error)),
            Ok(None) => match encode(instr) {
                Err(error) => Err(EmitError::Encoding(error)),
                Ok(encoded) => self.add_bytes(encoded.as_slice()),
            },
            Ok(Some(room)) => self.add_relative(instr, room),
        }
    }

    /// Ends the session and makes the module of it. Every instruction that
    /// addresses a label starts in its longest form. Then, pass after pass,
    /// the layout is computed, and every instruction whose displacement
    /// under that layout fits in 8 bits takes its short form, until a pass
    /// changes nothing; there are at most as many passes as there are
    /// instructions that have a short form. With the forms that are then
    /// chosen every instruction is encoded, and every named label gets its
    /// offset.
    ///
    /// # Errors
    /// [`PreassembleError::LabelNotSet`] if an instruction addresses a label
    /// that was not bound, or a label has a name and was not bound.
    fn preassemble(self) -> (result: Result<X64ReleasePreassembledModule, PreassembleError>)
        ensures
            result matches Ok(module) ==> {
                &&& module.symbol_names() == self@.names
                &&& module.fragments() == resolved_fragments(self@)
            },
            result matches Err(PreassembleError::LabelNotSet(label)) ==> self@.reports_unbound(
                label,
            ),
    {
        proof {
            self.labels.lemma_wf();
            assert forall|id: u32| #[trigger]
                self@.refers_to(id) && !self@.is_bound(id) implies !self@.fully_bound() by {
                let i = choose|i: int| #[trigger] self@.refers_at(i, id);
                assert(self@.dangling_reference(i));
            }
            assert forall|name: Seq<char>|
                (#[trigger] self@.label_of(name)) matches Some(id) && !self@.is_bound(
                    id,
                ) implies !self@.fully_bound() by {
                let at = place_of(self@.names, name);
                assert(self@.dangling_name(at));
            }
        }
        match self.find_unbound() {
            Some(label) => {
                return Err(PreassembleError::LabelNotSet(label));
            },
            None => {},
        }
        let ghost program = self@;
        let ghost seed = all_wide(program.pieces.len());
        let bound = self.count_candidates();
        let mut forms: Vec<bool> = Vec::new();
        let mut idx: usize = 0;
        while idx < self.fragments.len()
            invariant
                idx <= self.fragments@.len(),
                forms@.len() == idx,
                forall|j: int| 0 <= j < idx ==> !forms@[j],
            decreases self.fragments@.len() - idx,
        {
            forms.push(false);
            idx += 1;
        }
        proof {
            self.lemma_view_well_formed();
            assert(forms@ =~= seed);
        }
        let mut passes: usize = 0;
        let mut changed = true;
        while changed && passes < bound
            invariant
                self.wf(),
                program == self@,
                program.fully_bound(),
                seed == all_wide(program.pieces.len()),
                bound == program.pass_bound(),
                passes <= bound,
                forms@ == program.relax(seed, passes as nat),
                forms@.len() == self.fragments@.len(),
                !changed ==> program.relax_pass(forms@) == forms@,
            decreases bound - passes,
        {
            let ghost before = forms@;
            let starts = self.layout(&forms);
            changed = self.relax_once(&mut forms, &starts);
            passes += 1;
            proof {
                if !changed {
                    assert(forms@ == before);
                }
            }
        }
        proof {
            if passes < bound {
                program.lemma_relax_settled(seed, passes as nat, (bound - passes) as nat);
            }
            assert(forms@ == program.relaxed());
            program.lemma_relax_sound(bound as nat);
            lemma_fragments_chained(program, forms@);
            program.lemma_emitted_len(forms@, program.pieces.len() as int);
        }
        let starts = self.layout(&forms);
        let (buffer, fragments) = self.emit(&forms, &starts);
        let offsets = self.resolve_symbols(Ghost(forms@), &starts);
        proof {
            assert(symbol_map(program.names, offsets@) =~= program.symbol_table()) by {
                assert forall|name: Seq<char>| program.names.contains(name) implies
                    offsets@[place_of(program.names, name)] as usize == program.label_offset(
                    place_of(program.names, name) as u32,
                ) as usize by {
                    let at = place_of(program.names, name);
                    assert(0 <= at < program.names.len());
                }
            }
        }
        Ok(X64ReleasePreassembledModule::from_parts(self.labels, offsets, buffer, fragments))
    }
}

} // verus!
