use crate::encoder::bytes::fits_signed;
use crate::encoder::relative::{has_short_form, held_displacement, lemma_held_displacement};
use crate::models::instruction::Instruction;
use crate::models::program::{all_wide, place_of, shrinks_to, Forms, Piece, Program};
use vstd::prelude::*;

verus! {

impl Program {
    /// Whether the span at `i` is an instruction that has a short form and
    /// has not taken it under `forms`.
    pub open spec fn candidate(self, forms: Forms, i: int) -> bool {
        &&& 0 <= i < self.pieces.len()
        &&& !forms[i]
        &&& self.pieces[i] matches Piece::Relative(instr)
        &&& has_short_form(instr)
    }

    /// Whether the instruction at `i` takes its short form in the next pass:
    /// it has not taken it yet, and both its displacement under `forms` and
    /// its bare offset from the label fit in 8 bits. With the second
    /// condition the displacement still fits when the instructions between
    /// the two have shrunk as well; for an instruction that points at its
    /// label itself it always holds.
    pub open spec fn may_shrink(self, forms: Forms, i: int) -> bool {
        &&& self.candidate(forms, i)
        &&& fits_signed(self.displacement(forms, i), 1)
        &&& fits_signed(self.pieces[i]->Relative_0.label_offset() as int, 1)
    }

    /// One pass of relaxation: every instruction that may shrink under the
    /// layout that `forms` gives takes its short form, and no form is ever
    /// taken back.
    pub open spec fn relax_pass(self, forms: Forms) -> Forms {
        Seq::new(forms.len(), |i: int| forms[i] || self.may_shrink(forms, i))
    }

    /// `passes` passes of relaxation, one after the other.
    pub open spec fn relax(self, forms: Forms, passes: nat) -> Forms
        decreases passes,
    {
        if passes == 0 {
            forms
        } else {
            self.relax_pass(self.relax(forms, (passes - 1) as nat))
        }
    }

    /// How many of the first `count` spans are instructions that have a
    /// short form and have not taken it under `forms`.
    pub open spec fn candidates(self, forms: Forms, count: int) -> nat
        decreases count,
    {
        if count <= 0 {
            0
        } else {
            self.candidates(forms, count - 1) + if self.candidate(forms, count - 1) {
                1nat
            } else {
                0nat
            }
        }
    }

    /// The number of passes that relaxation is given: one for every
    /// instruction that has a short form.
    pub open spec fn pass_bound(self) -> nat {
        self.candidates(all_wide(self.pieces.len()), self.pieces.len() as int)
    }

    /// The forms that relaxation ends with: it starts from the longest form
    /// of every instruction and makes [`Self::pass_bound`] passes.
    pub open spec fn relaxed(self) -> Forms {
        self.relax(all_wide(self.pieces.len()), self.pass_bound())
    }

    /// Whether a further pass would leave `forms` as they are.
    pub open spec fn settled(self, forms: Forms) -> bool {
        forall|i: int| !self.may_shrink(forms, i)
    }

    /// Whether every form can hold its displacement: a short form is taken
    /// only by an instruction that has one, and then the displacement, like
    /// the bare offset, fits in 8 bits.
    pub open spec fn sound(self, forms: Forms) -> bool {
        &&& forms.len() == self.pieces.len()
        &&& forall|i: int|
            0 <= i < forms.len() && #[trigger] forms[i] ==> {
                &&& self.pieces[i] matches Piece::Relative(instr)
                &&& has_short_form(instr)
                &&& fits_signed(self.displacement(forms, i), 1)
                &&& fits_signed(instr.label_offset() as int, 1)
            }
    }

    /// The bytes of the finished program: every span under the forms that
    /// relaxation ends with.
    pub open spec fn assembled(self) -> Seq<u8> {
        self.emitted(self.relaxed(), self.pieces.len() as int)
    }

    /// The offset, in the finished program, of the label with the number
    /// `id`.
    pub open spec fn label_offset(self, id: u32) -> nat {
        self.address(self.relaxed(), self.bindings[id])
    }

    /// The offset, in the finished program, of every label that has a name,
    /// by that name.
    pub open spec fn symbol_table(self) -> Map<Seq<char>, usize> {
        Map::new(
            |name: Seq<char>| self.names.contains(name),
            |name: Seq<char>| self.label_offset(place_of(self.names, name) as u32) as usize,
        )
    }

    /// A pass keeps sound forms sound: the instructions that were short keep
    /// a displacement that fits, though others shrank around them, and the
    /// ones that turn short fit by the test they passed.
    pub proof fn lemma_pass_sound(self, forms: Forms)
        requires
            self.well_formed(),
            self.fully_bound(),
            self.sound(forms),
        ensures
            self.sound(self.relax_pass(forms)),
    {
        let next = self.relax_pass(forms);
        assert forall|i: int| 0 <= i < next.len() && #[trigger] next[i] implies {
            &&& self.pieces[i] matches Piece::Relative(instr)
            &&& has_short_form(instr)
            &&& fits_signed(self.displacement(next, i), 1)
            &&& fits_signed(instr.label_offset() as int, 1)
        } by {
            assert(forms[i] || self.may_shrink(forms, i));
            let instr = self.pieces[i]->Relative_0;
            assert(!self.dangling_reference(i));
            assert(self.bindings.contains_key(instr.label().unwrap().id));
            self.lemma_distance_shrinks(forms, next, i);
        }
    }

    /// Once a pass changes nothing, no later pass does.
    pub proof fn lemma_relax_settled(self, forms: Forms, passes: nat, more: nat)
        requires
            self.relax_pass(self.relax(forms, passes)) == self.relax(forms, passes),
        ensures
            self.relax(forms, passes + more) == self.relax(forms, passes),
        decreases more,
    {
        if more > 0 {
            self.lemma_relax_settled(forms, passes, (more - 1) as nat);
        }
    }

    /// Forms that shrink leave no more candidates than there were, and fewer
    /// where a candidate among the first `count` spans took its short form.
    pub proof fn lemma_candidates_shrink(self, earlier: Forms, later: Forms, count: int, taken: int)
        requires
            shrinks_to(earlier, later),
            earlier.len() == self.pieces.len(),
            0 <= count <= self.pieces.len(),
        ensures
            self.candidates(later, count) <= self.candidates(earlier, count),
            0 <= taken < count && self.candidate(earlier, taken) && later[taken]
                ==> self.candidates(later, count) < self.candidates(earlier, count),
        decreases count,
    {
        if count > 0 {
            self.lemma_candidates_shrink(earlier, later, count - 1, taken);
        }
    }

    /// Where no candidate is left, nothing may shrink.
    pub proof fn lemma_no_candidates(self, forms: Forms, count: int, i: int)
        requires
            self.candidates(forms, count) == 0,
            0 <= i < count,
        ensures
            !self.candidate(forms, i),
        decreases count,
    {
        if i < count - 1 {
            self.lemma_no_candidates(forms, count - 1, i);
        }
    }

    /// After `passes` passes, relaxation has settled, or every pass so far
    /// has turned at least one candidate short.
    pub proof fn lemma_relax_progress(self, passes: nat)
        ensures
            self.relax(all_wide(self.pieces.len()), passes).len() == self.pieces.len(),
            shrinks_to(
                all_wide(self.pieces.len()),
                self.relax(all_wide(self.pieces.len()), passes),
            ),
            self.settled(self.relax(all_wide(self.pieces.len()), passes)) || self.candidates(
                self.relax(all_wide(self.pieces.len()), passes),
                self.pieces.len() as int,
            ) + passes <= self.pass_bound(),
        decreases passes,
    {
        let count = self.pieces.len();
        let seed = all_wide(count);
        if passes > 0 {
            let before = self.relax(seed, (passes - 1) as nat);
            let after = self.relax(seed, passes);
            self.lemma_relax_progress((passes - 1) as nat);
            assert(after == self.relax_pass(before));
            if self.settled(before) {
                assert(after =~= before);
            } else {
                let taken = choose|i: int| self.may_shrink(before, i);
                assert(after[taken]);
                self.lemma_candidates_shrink(before, after, count as int, taken);
            }
        }
    }

    /// Relaxation converges within its bound: a pass more would change
    /// nothing. So no instruction keeps its long form while its
    /// displacement, and its offset from the label, fit in 8 bits.
    pub proof fn lemma_relaxed_settled(self)
        ensures
            self.relaxed().len() == self.pieces.len(),
            self.settled(self.relaxed()),
            self.relax_pass(self.relaxed()) == self.relaxed(),
    {
        let count = self.pieces.len();
        let forms = self.relaxed();
        self.lemma_relax_progress(self.pass_bound());
        if !self.settled(forms) {
            let i = choose|i: int| self.may_shrink(forms, i);
            self.lemma_no_candidates(forms, count as int, i);
        }
        assert(self.relax_pass(forms) =~= forms);
    }

    /// However many passes are made, the forms stay sound.
    pub proof fn lemma_relax_sound(self, passes: nat)
        requires
            self.well_formed(),
            self.fully_bound(),
        ensures
            self.sound(self.relax(all_wide(self.pieces.len()), passes)),
        decreases passes,
    {
        if passes > 0 {
            self.lemma_relax_sound((passes - 1) as nat);
            self.lemma_pass_sound(self.relax(all_wide(self.pieces.len()), (passes - 1) as nat));
        }
    }

    /// The forms that relaxation ends with are sound: wherever an
    /// instruction has taken its short form, its displacement fits in 8
    /// bits.
    pub proof fn lemma_relaxed_sound(self)
        requires
            self.well_formed(),
            self.fully_bound(),
        ensures
            self.sound(self.relaxed()),
    {
        self.lemma_relax_sound(self.pass_bound());
    }

    /// An instruction that is near its label ends in its short form: where
    /// the displacement fits in 8 bits with every instruction in its longest
    /// form, and so does the bare offset from the label, relaxation never
    /// leaves the instruction in its long form. A row of jumps, each over the
    /// next, is the plainest case: every one of them is near its label.
    pub proof fn lemma_near_is_short(self, i: int)
        requires
            self.well_formed(),
            self.fully_bound(),
            self.candidate(all_wide(self.pieces.len()), i),
            fits_signed(self.displacement(all_wide(self.pieces.len()), i), 1),
            fits_signed(self.pieces[i]->Relative_0.label_offset() as int, 1),
        ensures
            self.relaxed()[i],
    {
        let seed = all_wide(self.pieces.len());
        let instr = self.pieces[i]->Relative_0;
        self.lemma_relax_progress(self.pass_bound());
        self.lemma_relaxed_settled();
        assert(!self.dangling_reference(i));
        assert(self.bindings.contains_key(instr.label().unwrap().id));
        self.lemma_distance_shrinks(seed, self.relaxed(), i);
        assert(!self.may_shrink(self.relaxed(), i));
    }

    /// Every instruction of the finished program leads to its label: the
    /// displacement that its bytes hold, counted from its end, is the place
    /// of the label, moved by the instruction's offset.
    pub proof fn lemma_leads_to_label(self, i: int)
        requires
            self.well_formed(),
            self.fully_bound(),
            0 <= i < self.pieces.len(),
            self.pieces[i] is Relative,
        ensures
            ({
                let instr = self.pieces[i]->Relative_0;
                let forms = self.relaxed();
                let from = self.start(forms, i) as int;
                let end = self.start(forms, i + 1) as int;
                &&& end <= self.assembled().len()
                &&& end + held_displacement(self.assembled().subrange(from, end), forms[i])
                    == self.label_offset(instr.label().unwrap().id) + instr.label_offset()
            }),
    {
        let instr = self.pieces[i]->Relative_0;
        let forms = self.relaxed();
        self.lemma_relaxed_settled();
        self.lemma_relaxed_sound();
        self.lemma_emitted_span(forms, self.pieces.len() as int, i);
        assert(!self.dangling_reference(i));
        self.lemma_displacement_fits(forms, i);
        lemma_held_displacement(instr, self.displacement(forms, i), forms[i]);
    }

    /// Whether the program is a row of `count` jumps, each over the next: the
    /// label of every jump is bound right behind the jump that follows it,
    /// and that of the last one right behind itself.
    pub open spec fn is_row_of_jumps(self, count: nat) -> bool {
        &&& self.pieces.len() == 2 * count + 1
        &&& forall|i: int|
            0 <= i <= count ==> #[trigger] self.pieces[2 * i] == Piece::Bytes(Seq::<u8>::empty())
        &&& forall|i: int|
            0 <= i < count ==> {
                &&& #[trigger] self.pieces[2 * i + 1] matches Piece::Relative(
                    Instruction::JUMP_L(label, offset),
                )
                &&& offset == 0
                &&& self.bindings.contains_key(label.id)
                &&& self.bindings[label.id].relative_offset == 0
                &&& self.bindings[label.id].fragment_position == if i + 1 < count {
                    2 * i + 4
                } else {
                    2 * count as int
                }
            }
    }

    /// In a row of jumps, each over the next, every jump ends in its short
    /// form, however long the row is.
    pub proof fn lemma_row_of_jumps(self, count: nat, i: int)
        requires
            self.well_formed(),
            self.fully_bound(),
            self.is_row_of_jumps(count),
            0 <= i < count,
        ensures
            self.relaxed()[2 * i + 1],
    {
        let seed = all_wide(self.pieces.len());
        let at = 2 * i + 1;
        assert(self.pieces[2 * i + 1] is Relative);
        let instr = self.pieces[at]->Relative_0;
        let position = self.bindings[instr.label().unwrap().id];
        assert(self.displacement(seed, at) == self.start(seed, position.fragment_position as int)
            - self.start(seed, at + 1));
        assert(self.start(seed, at + 1) == self.start(seed, at) + self.pieces[at].len(seed[at]));
        if i + 1 < count {
            assert(self.pieces[2 * (i + 1)] == Piece::Bytes(Seq::<u8>::empty()));
            assert(self.pieces[2 * (i + 1) + 1] is Relative);
            assert(self.start(seed, at + 2) == self.start(seed, at + 1) + self.pieces[at + 1].len(
                seed[at + 1],
            ));
            assert(self.start(seed, at + 3) == self.start(seed, at + 2) + self.pieces[at + 2].len(
                seed[at + 2],
            ));
            assert(self.displacement(seed, at) == 5);
        } else {
            assert(self.pieces[2 * (i + 1)] == Piece::Bytes(Seq::<u8>::empty()));
            assert(self.displacement(seed, at) == 0);
        }
        self.lemma_near_is_short(at);
    }

    /// The finished program is as long as its spans are together under the
    /// forms that relaxation ends with, and no longer than the room that
    /// was set aside for it.
    pub proof fn lemma_assembled_len(self)
        ensures
            self.assembled().len() == self.content_len(self.relaxed()),
            self.assembled().len() <= self.reserved_len(),
    {
        self.lemma_relaxed_settled();
        self.lemma_emitted_len(self.relaxed(), self.pieces.len() as int);
        self.lemma_within_reserved(self.relaxed(), self.pieces.len() as int);
    }

    /// Where no span of the first `count` is an instruction, none of them is
    /// a candidate.
    proof fn lemma_bytes_only(self, count: int)
        requires
            0 <= count <= self.pieces.len(),
            forall|i: int| 0 <= i < self.pieces.len() ==> #[trigger] self.pieces[i] is Bytes,
        ensures
            self.candidates(all_wide(self.pieces.len()), count) == 0,
        decreases count,
    {
        if count > 0 {
            self.lemma_bytes_only(count - 1);
            assert(self.pieces[count - 1] is Bytes);
        }
    }

    /// A program in which no instruction addresses a label is finished as
    /// it stands: nothing shrinks, and its length is the room that was set
    /// aside for it.
    pub proof fn lemma_without_labels(self)
        requires
            self.well_formed(),
            forall|id: u32| !self.refers_to(id),
        ensures
            self.relaxed() == all_wide(self.pieces.len()),
            self.assembled().len() == self.reserved_len(),
    {
        assert forall|i: int| 0 <= i < self.pieces.len() implies #[trigger] self.pieces[i]
            is Bytes by {
            if let Piece::Relative(instr) = self.pieces[i] {
                assert(self.refers_at(i, instr.label()->Some_0.id));
                assert(self.refers_to(instr.label()->Some_0.id));
            }
        }
        self.lemma_bytes_only(self.pieces.len() as int);
        self.lemma_assembled_len();
    }

    /// Under any forms the whole is no longer than with every instruction
    /// in its longest form, and so is every part of it.
    pub proof fn lemma_within_reserved(self, forms: Forms, i: int)
        requires
            forms.len() == self.pieces.len(),
            0 <= i <= self.pieces.len(),
        ensures
            self.start(forms, i) <= self.content_len(forms) <= self.reserved_len(),
    {
        let seed = all_wide(self.pieces.len());
        self.lemma_stretch_shrinks(seed, forms, 0, self.pieces.len() as int);
        self.lemma_stretch_shrinks(forms, forms, i, self.pieces.len() as int);
    }

    /// A bound label lies within the finished program: its offset is at most
    /// the length of the whole.
    pub proof fn lemma_label_within_content(self, id: u32)
        requires
            self.well_formed(),
            self.is_bound(id),
        ensures
            self.label_offset(id) <= self.assembled().len(),
    {
        let forms = self.relaxed();
        let at = self.bindings[id].fragment_position as int;
        self.lemma_relaxed_settled();
        self.lemma_assembled_len();
        self.lemma_within_reserved(forms, at + 1);
        self.lemma_stretch_shrinks(forms, forms, at, at + 1);
    }

    /// Every displacement fits in 32 bits.
    pub proof fn lemma_displacement_fits(self, forms: Forms, i: int)
        requires
            self.well_formed(),
            forms.len() == self.pieces.len(),
            0 <= i < self.pieces.len(),
            !self.dangling_reference(i),
        ensures
            fits_signed(self.displacement(forms, i), 4),
    {
        match self.pieces[i] {
            Piece::Relative(instr) => {
                let position = self.bindings[instr.label().unwrap().id];
                assert(self.bindings.contains_key(instr.label().unwrap().id));
                let at = position.fragment_position as int;
                self.lemma_within_reserved(forms, i + 1);
                self.lemma_within_reserved(forms, at + 1);
                self.lemma_stretch_shrinks(forms, forms, at, at + 1);
            },
            Piece::Bytes(_) => {},
        }
    }
}

} // verus!
