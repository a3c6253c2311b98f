use crate::encoder::errors::EncodingError;
use crate::encoder::instruction::encoding;
use crate::encoder::relative::{
    is_relative, lemma_relative_bytes_len, relative_bytes, relative_len, relative_valid, wide_len,
};
use crate::models::instruction::Instruction;
use crate::models::label::Label;
use vstd::prelude::*;

verus! {

/// The most bytes a session may hold, every label-relative instruction
/// counted at its longest. Within this bound, and with the bound on the
/// offset of an instruction from its label, every displacement fits in 32
/// bits.
pub const MAX_CONTENT_LENGTH: u32 = 0x3fff_ffff;

/// Whether no name stands twice in `names`.
pub open spec fn distinct(names: Seq<Seq<char>>) -> bool {
    forall|i: int, j: int| 0 <= i < j < names.len() ==> names[i] != names[j]
}

/// The place of `name` in `names`: some place that holds it, where one
/// does. Among distinct names there is only one.
pub open spec fn place_of(names: Seq<Seq<char>>, name: Seq<char>) -> int {
    choose|i: int| 0 <= i < names.len() && names[i] == name
}

/// Among distinct names, a name stands at its place and nowhere else.
pub proof fn lemma_place_of(names: Seq<Seq<char>>, i: int)
    requires
        distinct(names),
        0 <= i < names.len(),
    ensures
        place_of(names, names[i]) == i,
        names.contains(names[i]),
{
    let j = place_of(names, names[i]);
    assert(0 <= j < names.len() && names[j] == names[i]);
}

/// A name keeps its place when more names are added behind it: whatever
/// is interned later, the same name gives the same number.
pub proof fn lemma_place_is_kept(names: Seq<Seq<char>>, more: Seq<Seq<char>>, name: Seq<char>)
    requires
        distinct(names + more),
        names.contains(name),
    ensures
        place_of(names + more, name) == place_of(names, name),
{
    let at = place_of(names, name);
    assert(0 <= at < names.len() && names[at] == name);
    assert((names + more)[at] == name);
    lemma_place_of(names + more, at);
}

/// Where a label was bound: in which fragment, and how many bytes behind the
/// start of that fragment's payload. The place is kept in this form, and
/// not as an address, because the address is not known before every branch
/// in front of it has its final size.
#[derive(PartialEq, Eq, Structural, Clone, Copy, Debug)]
pub struct LabelPosition {
    pub fragment_position: u32,
    pub relative_offset: u32,
}

/// One span of a program: bytes that are final as they stand, or one
/// instruction that addresses a label and is encoded when the layout is
/// known.
pub enum Piece {
    Bytes(Seq<u8>),
    Relative(Instruction),
}

impl Piece {
    /// The length of the span, a label-relative instruction taken in its short
    /// form where `short` is set.
    pub open spec fn len(self, short: bool) -> nat {
        match self {
            Piece::Bytes(bytes) => bytes.len(),
            Piece::Relative(instr) => relative_len(instr, short),
        }
    }
}

/// What an assembly session holds, as a mathematical value: the spans in the
/// order in which they were added, the names that were interned (a name's
/// place is the number of its label), and the places of the labels that were
/// bound, by the number of the label.
pub struct Program {
    pub pieces: Seq<Piece>,
    pub names: Seq<Seq<char>>,
    pub bindings: Map<u32, LabelPosition>,
}

/// A choice of form for every span: `true` where a label-relative
/// instruction takes its short form.
pub type Forms = Seq<bool>;

/// The choice with which relaxation starts: every instruction in its longest
/// form.
pub open spec fn all_wide(count: nat) -> Forms {
    Seq::new(count, |i: int| false)
}

/// Whether `later` has the short form wherever `earlier` has it.
pub open spec fn shrinks_to(earlier: Forms, later: Forms) -> bool {
    &&& earlier.len() == later.len()
    &&& forall|i: int| 0 <= i < earlier.len() && earlier[i] ==> later[i]
}

impl Program {
    /// The program of a session to which nothing was added: one empty span
    /// of bytes, no name, no bound label.
    pub open spec fn empty() -> Program {
        Program {
            pieces: seq![Piece::Bytes(Seq::<u8>::empty())],
            names: Seq::<Seq<char>>::empty(),
            bindings: Map::<u32, LabelPosition>::empty(),
        }
    }

    /// Whether `position` names a place in a span of bytes.
    pub open spec fn anchored(self, position: LabelPosition) -> bool {
        &&& position.fragment_position < self.pieces.len()
        &&& self.pieces[position.fragment_position as int] matches Piece::Bytes(bytes)
        &&& position.relative_offset <= bytes.len()
    }

    /// What holds of every program a session can build: no name stands twice,
    /// every label-relative instruction has an encoding, every bound label
    /// lies in a span of bytes, and the whole is within
    /// [`MAX_CONTENT_LENGTH`].
    pub open spec fn well_formed(self) -> bool {
        &&& distinct(self.names)
        &&& self.names.len() <= u32::MAX
        &&& forall|i: int|
            0 <= i < self.pieces.len() ==> (#[trigger] self.pieces[i] matches Piece::Relative(
                instr,
            ) ==> relative_valid(instr))
        &&& forall|id: u32| #[trigger]
            self.bindings.contains_key(id) ==> self.anchored(self.bindings[id])
        &&& self.reserved_len() <= MAX_CONTENT_LENGTH
    }

    /// The place that the end of the program has reached: behind the last
    /// byte of its last span.
    pub open spec fn end_position(self) -> LabelPosition {
        LabelPosition {
            fragment_position: (self.pieces.len() - 1) as u32,
            relative_offset: self.pieces.last().len(false) as u32,
        }
    }

    /// The program with `bytes` added to the end of its last span.
    pub open spec fn with_bytes(self, bytes: Seq<u8>) -> Program
        recommends
            self.pieces.len() > 0,
            self.pieces.last() is Bytes,
    {
        Program {
            pieces: self.pieces.update(
                self.pieces.len() - 1,
                Piece::Bytes(self.pieces.last()->Bytes_0 + bytes),
            ),
            ..self
        }
    }

    /// The program with the label of the number `id` bound to the place that
    /// its end has reached.
    pub open spec fn with_binding(self, id: u32) -> Program {
        Program { bindings: self.bindings.insert(id, self.end_position()), ..self }
    }

    /// The program with `instr`, an instruction that addresses a label, added
    /// at its end, and behind it an empty span for what follows.
    pub open spec fn with_relative(self, instr: Instruction) -> Program {
        Program {
            pieces: self.pieces.push(Piece::Relative(instr)).push(
                Piece::Bytes(Seq::<u8>::empty()),
            ),
            ..self
        }
    }

    /// The number of bytes that `instr` takes when it is added, or the
    /// reason why it has no encoding. An instruction that addresses a label
    /// takes the room of its longest encoding.
    pub open spec fn instruction_len(instr: Instruction) -> Result<nat, EncodingError> {
        if is_relative(instr) {
            if relative_valid(instr) {
                Ok(wide_len(instr))
            } else {
                Err(EncodingError::ArgumentOutOfRange)
            }
        } else {
            match encoding(instr) {
                Ok(bytes) => Ok(bytes.len()),
                Err(error) => Err(error),
            }
        }
    }

    /// Whether `instr` can be added: it has an encoding, and with it the
    /// program stays within [`MAX_CONTENT_LENGTH`].
    pub open spec fn accepts(self, instr: Instruction) -> bool {
        Self::instruction_len(instr) matches Ok(len) && self.reserved_len() + len
            <= MAX_CONTENT_LENGTH
    }

    /// The program after `instr` was added: unchanged where the instruction
    /// is not accepted; else with the instruction itself at its end, where it
    /// addresses a label, and with its bytes there, where it addresses none.
    pub open spec fn with_instruction(self, instr: Instruction) -> Program {
        if !self.accepts(instr) {
            self
        } else if is_relative(instr) {
            self.with_relative(instr)
        } else {
            self.with_bytes(encoding(instr)->Ok_0)
        }
    }

    /// The number of the label that `name` was given, if the name was
    /// interned.
    pub open spec fn label_of(self, name: Seq<char>) -> Option<u32> {
        if self.names.contains(name) {
            Some(place_of(self.names, name) as u32)
        } else {
            None
        }
    }

    /// Whether the label with the number `id` was bound.
    pub open spec fn is_bound(self, id: u32) -> bool {
        self.bindings.contains_key(id)
    }

    /// Whether the span at `i` is an instruction that addresses the label
    /// with the number `id`.
    pub open spec fn refers_at(self, i: int, id: u32) -> bool {
        &&& 0 <= i < self.pieces.len()
        &&& self.pieces[i] matches Piece::Relative(instr)
        &&& instr.label() == Some(Label { id })
    }

    /// Whether an instruction of the program addresses the label with the
    /// number `id`.
    pub open spec fn refers_to(self, id: u32) -> bool {
        exists|i: int| #[trigger] self.refers_at(i, id)
    }

    /// Two programs whose instructions are the same, span by span, address
    /// the same labels.
    pub proof fn lemma_refers_alike(self, other: Program, id: u32)
        requires
            self.pieces.len() == other.pieces.len(),
            forall|i: int|
                0 <= i < self.pieces.len() ==> (self.pieces[i] is Relative || other.pieces[i]
                    is Relative ==> #[trigger] self.pieces[i] == other.pieces[i]),
        ensures
            self.refers_to(id) == other.refers_to(id),
    {
        if self.refers_to(id) {
            let i = choose|i: int| #[trigger] self.refers_at(i, id);
            assert(self.pieces[i] == other.pieces[i]);
            assert(other.refers_at(i, id));
        }
        if other.refers_to(id) {
            let i = choose|i: int| #[trigger] other.refers_at(i, id);
            assert(self.pieces[i] == other.pieces[i]);
            assert(self.refers_at(i, id));
        }
    }

    /// With an instruction added, a program addresses the label of that
    /// instruction beside the labels that it addressed before.
    pub proof fn lemma_refers_with_relative(self, instr: Instruction, id: u32)
        ensures
            self.with_relative(instr).refers_to(id) <==> self.refers_to(id) || instr.label()
                == Some(Label { id }),
    {
        let later = self.with_relative(instr);
        let count = self.pieces.len() as int;
        if self.refers_to(id) {
            let i = choose|i: int| #[trigger] self.refers_at(i, id);
            assert(later.refers_at(i, id));
        }
        if instr.label() == Some(Label { id }) {
            assert(later.refers_at(count, id));
        }
        if later.refers_to(id) {
            let i = choose|i: int| #[trigger] later.refers_at(i, id);
            if i < count {
                assert(self.refers_at(i, id));
            }
        }
    }

    /// Whether the span at `i` is an instruction whose label was not bound.
    pub open spec fn dangling_reference(self, i: int) -> bool {
        &&& 0 <= i < self.pieces.len()
        &&& self.pieces[i] matches Piece::Relative(instr)
        &&& instr.label() matches Some(label)
        &&& !self.is_bound(label.id)
    }

    /// Whether the name with the number `id` was interned and its label not
    /// bound.
    pub open spec fn dangling_name(self, id: int) -> bool {
        0 <= id < self.names.len() && !self.is_bound(id as u32)
    }

    /// Whether `label` is the one that is reported where the program is not
    /// fully bound: the label of the first instruction whose label was not
    /// bound, or, where every instruction has its label bound, the label of
    /// the first name whose label was not.
    pub open spec fn reports_unbound(self, label: Label) -> bool {
        ||| exists|i: int|
            {
                &&& #[trigger] self.dangling_reference(i)
                &&& self.pieces[i]->Relative_0.label() == Some(label)
                &&& forall|j: int| 0 <= j < i ==> !self.dangling_reference(j)
            }
        ||| {
            &&& forall|i: int| !self.dangling_reference(i)
            &&& self.dangling_name(label.id as int)
            &&& forall|id: int| 0 <= id < label.id ==> !self.dangling_name(id)
        }
    }

    /// Whether every label that an instruction addresses, and every label
    /// that has a name, was bound.
    pub open spec fn fully_bound(self) -> bool {
        &&& forall|i: int| !self.dangling_reference(i)
        &&& forall|id: int| !self.dangling_name(id)
    }

    /// A program is fully bound exactly when every label that one of its
    /// instructions addresses, and every label that has a name, is bound.
    pub proof fn lemma_fully_bound(self)
        requires
            distinct(self.names),
            self.names.len() <= u32::MAX,
        ensures
            self.fully_bound() <==> {
                &&& forall|id: u32| #[trigger] self.refers_to(id) ==> self.is_bound(id)
                &&& forall|name: Seq<char>|
                    (#[trigger] self.label_of(name)) matches Some(id) ==> self.is_bound(id)
            },
    {
        if self.fully_bound() {
            assert forall|id: u32| #[trigger] self.refers_to(id) implies self.is_bound(id) by {
                let i = choose|i: int| #[trigger] self.refers_at(i, id);
                assert(!self.dangling_reference(i));
            }
            assert forall|name: Seq<char>| (#[trigger] self.label_of(name)) is Some implies
                self.is_bound(self.label_of(name)->Some_0) by {
                assert(!self.dangling_name(place_of(self.names, name)));
            }
        }
        if {
            &&& forall|id: u32| #[trigger] self.refers_to(id) ==> self.is_bound(id)
            &&& forall|name: Seq<char>|
                (#[trigger] self.label_of(name)) matches Some(id) ==> self.is_bound(id)
        } {
            assert forall|i: int| !self.dangling_reference(i) by {
                if self.dangling_reference(i) {
                    let id = self.pieces[i]->Relative_0.label()->Some_0.id;
                    assert(self.refers_at(i, id));
                    assert(self.refers_to(id));
                }
            }
            assert forall|id: int| !self.dangling_name(id) by {
                if self.dangling_name(id) {
                    lemma_place_of(self.names, id);
                    assert(self.label_of(self.names[id]) == Some(id as u32));
                }
            }
        }
    }

    /// The offset at which the span at `i` starts under `forms`: the lengths
    /// of the spans in front of it, summed.
    pub open spec fn start(self, forms: Forms, i: int) -> nat
        decreases i,
    {
        if i <= 0 {
            0
        } else {
            self.start(forms, i - 1) + self.pieces[i - 1].len(forms[i - 1])
        }
    }

    /// The length of the whole under `forms`.
    pub open spec fn content_len(self, forms: Forms) -> nat {
        self.start(forms, self.pieces.len() as int)
    }

    /// The length of the whole with every instruction in its longest form.
    pub open spec fn reserved_len(self) -> nat {
        self.content_len(all_wide(self.pieces.len()))
    }

    /// The offset of a bound place under `forms`.
    pub open spec fn address(self, forms: Forms, position: LabelPosition) -> nat {
        self.start(forms, position.fragment_position as int) + position.relative_offset as nat
    }

    /// How far the label of the instruction at `i` lies behind the end of
    /// that instruction under `forms`, negative where it lies in front.
    pub open spec fn distance(self, forms: Forms, i: int) -> int {
        match self.pieces[i] {
            Piece::Relative(instr) => self.address(forms, self.bindings[instr.label().unwrap().id])
                - self.start(forms, i + 1),
            Piece::Bytes(_) => 0,
        }
    }

    /// The displacement of the instruction at `i` under `forms`: from its own
    /// end to its label, moved by its offset.
    pub open spec fn displacement(self, forms: Forms, i: int) -> int {
        match self.pieces[i] {
            Piece::Relative(instr) => self.distance(forms, i) + instr.label_offset(),
            Piece::Bytes(_) => 0,
        }
    }

    /// The bytes of the span at `i` under `forms`.
    pub open spec fn piece_bytes(self, forms: Forms, i: int) -> Seq<u8> {
        match self.pieces[i] {
            Piece::Bytes(bytes) => bytes,
            Piece::Relative(instr) => relative_bytes(instr, self.displacement(forms, i), forms[i]),
        }
    }

    /// The bytes of the first `count` spans under `forms`, one after the
    /// other.
    pub open spec fn emitted(self, forms: Forms, count: int) -> Seq<u8>
        decreases count,
    {
        if count <= 0 {
            Seq::<u8>::empty()
        } else {
            self.emitted(forms, count - 1) + self.piece_bytes(forms, count - 1)
        }
    }

    /// The first `count` spans take as many bytes as the layout gives them.
    pub proof fn lemma_emitted_len(self, forms: Forms, count: int)
        requires
            0 <= count <= self.pieces.len(),
            forms.len() == self.pieces.len(),
        ensures
            self.emitted(forms, count).len() == self.start(forms, count),
        decreases count,
    {
        if count > 0 {
            self.lemma_emitted_len(forms, count - 1);
            match self.pieces[count - 1] {
                Piece::Relative(instr) => {
                    lemma_relative_bytes_len(
                        instr,
                        self.displacement(forms, count - 1),
                        forms[count - 1],
                    );
                },
                Piece::Bytes(_) => {},
            }
        }
    }

    /// Every span stands in the emitted bytes where the layout puts it: the
    /// bytes from the start of the span at `i` to the start of the next are
    /// the bytes of that span. So bytes that were added are found again at
    /// their offset, and an instruction at its own.
    pub proof fn lemma_emitted_span(self, forms: Forms, count: int, i: int)
        requires
            0 <= i < count <= self.pieces.len(),
            forms.len() == self.pieces.len(),
        ensures
            self.start(forms, i + 1) <= self.emitted(forms, count).len(),
            self.emitted(forms, count).subrange(
                self.start(forms, i) as int,
                self.start(forms, i + 1) as int,
            ) == self.piece_bytes(forms, i),
        decreases count,
    {
        self.lemma_emitted_len(forms, count);
        self.lemma_emitted_len(forms, count - 1);
        self.lemma_emitted_len(forms, i);
        self.lemma_emitted_len(forms, i + 1);
        let before = self.emitted(forms, count - 1);
        let last = self.piece_bytes(forms, count - 1);
        if i == count - 1 {
            assert((before + last).subrange(before.len() as int, (before + last).len() as int)
                =~= last);
        } else {
            self.lemma_emitted_span(forms, count - 1, i);
            assert((before + last).subrange(
                self.start(forms, i) as int,
                self.start(forms, i + 1) as int,
            ) =~= before.subrange(self.start(forms, i) as int, self.start(forms, i + 1) as int));
        }
    }

    /// Spans that shrink do not grow the stretch between two of them: from
    /// `from` to `to` there are no more bytes under `later` than under
    /// `earlier`, and never less than none.
    pub proof fn lemma_stretch_shrinks(self, earlier: Forms, later: Forms, from: int, to: int)
        requires
            shrinks_to(earlier, later),
            earlier.len() == self.pieces.len(),
            0 <= from <= to <= self.pieces.len(),
        ensures
            self.start(later, from) <= self.start(later, to),
            self.start(later, to) - self.start(later, from) <= self.start(earlier, to) - self.start(
                earlier,
                from,
            ),
        decreases to - from,
    {
        if from < to {
            self.lemma_stretch_shrinks(earlier, later, from, to - 1);
        }
    }

    /// A label and an instruction never change sides, and they only come
    /// closer: where forms shrink, the distance from the instruction to its
    /// label keeps its sign and does not grow.
    pub proof fn lemma_distance_shrinks(self, earlier: Forms, later: Forms, i: int)
        requires
            shrinks_to(earlier, later),
            earlier.len() == self.pieces.len(),
            0 <= i < self.pieces.len(),
            self.pieces[i] matches Piece::Relative(instr) && self.is_bound(
                instr.label().unwrap().id,
            ) && self.anchored(self.bindings[instr.label().unwrap().id]),
        ensures
            self.distance(earlier, i) >= 0 ==> 0 <= self.distance(later, i) <= self.distance(
                earlier,
                i,
            ),
            self.distance(earlier, i) <= 0 ==> self.distance(earlier, i) <= self.distance(later, i)
                <= 0,
    {
        let instr = self.pieces[i]->Relative_0;
        let position = self.bindings[instr.label().unwrap().id];
        let at = position.fragment_position as int;
        if at > i {
            self.lemma_stretch_shrinks(earlier, later, i + 1, at);
        } else {
            self.lemma_stretch_shrinks(earlier, later, at + 1, i + 1);
            self.lemma_stretch_shrinks(earlier, earlier, at + 1, i + 1);
            assert(self.start(earlier, at + 1) == self.start(earlier, at) + self.pieces[at].len(
                earlier[at],
            ));
            assert(self.start(later, at + 1) == self.start(later, at) + self.pieces[at].len(
                later[at],
            ));
        }
    }
}

} // verus!
