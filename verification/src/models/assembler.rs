use crate::encoder::errors::EncodingError;
use crate::models::instruction::Instruction;
use crate::models::label::Label;
use crate::models::program::{Program, MAX_CONTENT_LENGTH};
use vstd::prelude::*;

verus! {

/// The finished result of an assembly session: the bytes, every instruction
/// in its final form, and the offset of every named label.
pub trait PreassembledModule {
    type AssembleError;

    /// What a module keeps true of itself.
    spec fn wf(&self) -> bool;

    /// The bytes of the module.
    spec fn content(&self) -> Seq<u8>;

    /// The offset of every symbol, by its name.
    spec fn symbol_table(&self) -> Map<Seq<char>, usize>;

    /// The position of the given symbol, and `None` where the module has no
    /// such symbol.
    fn symbol_position(&self, name: &str) -> (position: Option<usize>)
        requires
            self.wf(),
        ensures
            position == if self.symbol_table().contains_key(name@) {
                Some(self.symbol_table()[name@])
            } else {
                None
            },
    ;

    /// Every symbol of the module with its position, each once, in no
    /// order that could be relied on.
    fn symbols(&self) -> (symbols: Vec<(String, usize)>)
        requires
            self.wf(),
        ensures
            forall|i: int|
                0 <= i < symbols@.len() ==> self.symbol_table().contains_key(
                    (#[trigger] symbols@[i]).0@,
                ) && self.symbol_table()[symbols@[i].0@] == symbols@[i].1,
            forall|i: int, j: int|
                0 <= i < j < symbols@.len() ==> (#[trigger] symbols@[i]).0@ != (
                #[trigger] symbols@[j]).0@,
            forall|name: Seq<char>| #[trigger]
                self.symbol_table().contains_key(name) ==> exists|i: int|
                    0 <= i < symbols@.len() && (#[trigger] symbols@[i]).0@ == name,
    ;

    /// The number of bytes of the module. A sink that is to receive the
    /// module has to take that many.
    fn content_length(&self) -> (length: usize)
        requires
            self.wf(),
        ensures
            length == self.content().len(),
    ;

    /// Appends the bytes of the module to `output` and returns their
    /// number.
    ///
    /// # Errors
    /// For concrete errors see [`Self::AssembleError`]. Nothing is said here
    /// of what `output` then holds.
    fn assemble(&self, output: &mut Vec<u8>) -> (result: Result<usize, Self::AssembleError>)
        requires
            self.wf(),
        ensures
            result matches Ok(written) ==> written == self.content().len() && final(output)@
                == old(output)@ + self.content(),
    ;
}

/// An assembly session: instructions and bytes are added at its end, labels
/// are bound to the place that the end has reached, and at last the session
/// is turned into a module.
pub trait Assembler: Sized {
    type EmitError;

    type SetLabelError;

    type PreassembleError;

    type PreassembledModule: PreassembledModule;

    /// What a session keeps true of itself.
    spec fn wf(&self) -> bool;

    /// What the session holds, as a mathematical value.
    spec fn program(&self) -> Program;

    /// A session that is well formed holds a program that is well formed,
    /// whose last span is a span of bytes.
    proof fn lemma_program_well_formed(&self)
        requires
            self.wf(),
        ensures
            self.program().well_formed(),
            self.program().pieces.len() > 0,
            self.program().pieces.last() is Bytes,
    ;

    /// The label with the name `name`: the one that the name was given
    /// before, or, for a name not seen before, a new one with the next free
    /// number, counted from 0. So the same name always gives the same
    /// label, whatever was interned in between, and the labels are numbered
    /// in the order in which their names were first seen.
    fn get_or_create_label(&mut self, name: &str) -> (label: Label)
        requires
            old(self).wf(),
            old(self).program().names.len() < u32::MAX,
        ensures
            final(self).wf(),
            final(self).program().pieces == old(self).program().pieces,
            final(self).program().bindings == old(self).program().bindings,
            final(self).program().reserved_len() == old(self).program().reserved_len(),
            final(self).program().label_of(name@) == Some(label.id),
            old(self).program().label_of(name@) is Some ==> final(self).program().names == old(
                self,
            ).program().names,
            old(self).program().label_of(name@) is None ==> {
                &&& final(self).program().names == old(self).program().names.push(name@)
                &&& label.id == old(self).program().names.len()
            },
            forall|other: Seq<char>| #[trigger]
                old(self).program().label_of(other) is Some ==> final(self).program().label_of(
                    other,
                ) == old(self).program().label_of(other),
            label.id < final(self).program().names.len(),
            final(self).program().names[label.id as int] == name@,
            forall|id: u32|
                #![trigger old(self).program().refers_to(id)]
                #![trigger final(self).program().refers_to(id)]
                old(self).program().refers_to(id) == final(self).program().refers_to(id),
    ;

    /// Adds one instruction and returns the number of bytes that it takes.
    /// An instruction that addresses no label is encoded at once. One that
    /// addresses a label is kept as it is, with room for its longest
    /// encoding, and the number returned is that of this room.
    ///
    /// # Errors
    /// For concrete errors see [`Self::EmitError`]. The instruction is
    /// refused exactly where it has no encoding or the session has no room
    /// for it, and nothing is added then.
    fn add_instruction(&mut self, instr: &Instruction) -> (result: Result<usize, Self::EmitError>)
        requires
            old(self).wf(),
        ensures
            final(self).wf(),
            old(self).program().accepts(*instr) <==> result is Ok,
            result matches Ok(len) ==> {
                &&& Program::instruction_len(*instr) == Ok::<nat, EncodingError>(len as nat)
                &&& final(self).program().reserved_len() == old(self).program().reserved_len()
                    + len
            },
            final(self).program() == old(self).program().with_instruction(*instr),
            result is Ok ==> (instr.label() matches Some(label) ==> final(self).program().refers_to(
                label.id,
            )),
            forall|id: u32|
                #![trigger old(self).program().refers_to(id)]
                #![trigger final(self).program().refers_to(id)]
                final(self).program().refers_to(id) <==> old(self).program().refers_to(id) || (
                result is Ok && instr.label() == Some(Label { id })),
    ;

    /// Appends `bytes` and returns their number.
    ///
    /// # Errors
    /// For concrete errors see [`Self::EmitError`]. The bytes are refused
    /// exactly where the session would then hold more than
    /// [`MAX_CONTENT_LENGTH`] bytes, and nothing is added then.
    fn add_bytes(&mut self, bytes: &[u8]) -> (result: Result<usize, Self::EmitError>)
        requires
            old(self).wf(),
        ensures
            final(self).wf(),
            old(self).program().reserved_len() + bytes@.len() <= MAX_CONTENT_LENGTH
                <==> result is Ok,
            result matches Ok(len) ==> {
                &&& len == bytes@.len()
                &&& final(self).program() == old(self).program().with_bytes(bytes@)
                &&& final(self).program().reserved_len() == old(self).program().reserved_len()
                    + len
            },
            result is Err ==> final(self).program() == old(self).program(),
            forall|id: u32|
                #![trigger old(self).program().refers_to(id)]
                #![trigger final(self).program().refers_to(id)]
                old(self).program().refers_to(id) == final(self).program().refers_to(id),
    ;

    /// Binds `label` to the place that the end of the session has reached.
    /// A label can be bound once.
    ///
    /// # Errors
    /// For concrete errors see [`Self::SetLabelError`]. The call fails
    /// exactly where the label was bound before, and the label then keeps
    /// the place it has.
    fn set_label(&mut self, label: &Label) -> (result: Result<(), Self::SetLabelError>)
        requires
            old(self).wf(),
        ensures
            final(self).wf(),
            final(self).program().is_bound(label.id),
            final(self).program().reserved_len() == old(self).program().reserved_len(),
            !old(self).program().is_bound(label.id) <==> result is Ok,
            result is Ok ==> final(self).program() == old(self).program().with_binding(label.id),
            result is Err ==> final(self).program() == old(self).program(),
            forall|id: u32|
                #![trigger old(self).program().refers_to(id)]
                #![trigger final(self).program().refers_to(id)]
                old(self).program().refers_to(id) == final(self).program().refers_to(id),
    ;

    /// Ends the session and makes the module of it. No update is possible
    /// after this point.
    ///
    /// # Errors
    /// For concrete errors see [`Self::PreassembleError`]. The call fails
    /// exactly where a label that an instruction addresses, or a label that
    /// has a name, was not bound.
    fn preassemble(self) -> (result: Result<Self::PreassembledModule, Self::PreassembleError>)
        requires
            self.wf(),
        ensures
            self.program().fully_bound() <==> result is Ok,
            forall|id: u32| #[trigger]
                self.program().refers_to(id) && !self.program().is_bound(id) ==> result is Err,
            forall|name: Seq<char>|
                (#[trigger] self.program().label_of(name)) matches Some(id)
                    && !self.program().is_bound(id) ==> result is Err,
            result matches Ok(module) ==> {
                &&& module.wf()
                &&& module.content() == self.program().assembled()
                &&& module.symbol_table() == self.program().symbol_table()
            },
    ;
}

} // verus!
