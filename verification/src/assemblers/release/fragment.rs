use crate::models::instruction::Instruction;
use crate::models::program::{Forms, Piece, Program};
use vstd::prelude::*;

verus! {

/// What the last fragment of a chain holds in place of the position of a
/// next one.
pub const NO_NEXT: u32 = 0xffff_ffff;

/// What a fragment holds.
#[derive(PartialEq, Eq, Structural, Clone, Copy, Debug)]
pub enum FragmentKind {
    /// Bytes that are final as they stand.
    Static,
    /// One instruction that addresses a label. Its payload is a placeholder
    /// as long as its longest encoding, until the layout is known.
    DynamicInstruction(Instruction),
}

/// The header of one contiguous span of a byte buffer. The headers of a
/// buffer form a chain: each holds the position of the next, as a number
/// and not as an address, so that a buffer that moves as it grows leaves
/// every link valid.
#[derive(PartialEq, Eq, Structural, Clone, Copy, Debug)]
pub struct Fragment {
    /// The position of the next header, or [`NO_NEXT`].
    pub next_position: u32,
    /// The number of payload bytes.
    pub buffer_length: u32,
    /// Where the payload starts, counted from the start of the buffer.
    pub offset: u32,
    pub kind: FragmentKind,
}

/// Whether `fragments` form one chain from the first to the last in the
/// order in which they stand, the payload of each starting where that of
/// the one before it ends, and the first at 0.
pub open spec fn chained(fragments: Seq<Fragment>) -> bool {
    &&& 0 < fragments.len() < NO_NEXT
    &&& fragments[0].offset == 0
    &&& forall|i: int|
        0 <= i < fragments.len() - 1 ==> (#[trigger] fragments[i]).next_position == i + 1
            && fragments[i + 1].offset == fragments[i].offset + fragments[i].buffer_length
    &&& fragments.last().next_position == NO_NEXT
}

/// The number of payload bytes of a chain: where the payload of its last
/// fragment ends.
pub open spec fn chain_len(fragments: Seq<Fragment>) -> int {
    fragments.last().offset + fragments.last().buffer_length
}

/// The payload lengths of the first `count` fragments, summed.
pub open spec fn payload_sum(fragments: Seq<Fragment>, count: int) -> int
    decreases count,
{
    if count <= 0 {
        0
    } else {
        payload_sum(fragments, count - 1) + fragments[count - 1].buffer_length
    }
}

/// In a chain every payload starts at the sum of the payload lengths in
/// front of it, so that the chain holds as many bytes as the lengths of its
/// payloads make together.
pub proof fn lemma_chain_sum(fragments: Seq<Fragment>, count: int)
    requires
        chained(fragments),
        0 <= count <= fragments.len(),
    ensures
        count < fragments.len() ==> payload_sum(fragments, count) == fragments[count].offset,
        count == fragments.len() ==> payload_sum(fragments, count) == chain_len(fragments),
    decreases count,
{
    if count > 0 {
        lemma_chain_sum(fragments, count - 1);
        assert(fragments[count - 1].next_position == count || count == fragments.len());
    }
}

/// Along a chain the payloads follow each other: none starts behind the end
/// of the chain.
pub proof fn lemma_chain_monotone(fragments: Seq<Fragment>, i: int)
    requires
        chained(fragments),
        0 <= i < fragments.len(),
    ensures
        fragments[i].offset + fragments[i].buffer_length <= chain_len(fragments),
    decreases fragments.len() - i,
{
    if i < fragments.len() - 1 {
        lemma_chain_monotone(fragments, i + 1);
    }
}

/// The fragment that the span at `i` of `program` makes under `forms`:
/// linked to the next, of the length and at the offset that the layout
/// gives it.
pub open spec fn fragment_under(program: Program, forms: Forms, i: int) -> Fragment {
    Fragment {
        next_position: if i + 1 < program.pieces.len() {
            (i + 1) as u32
        } else {
            NO_NEXT
        },
        buffer_length: program.pieces[i].len(forms[i]) as u32,
        offset: program.start(forms, i) as u32,
        kind: match program.pieces[i] {
            Piece::Bytes(_) => FragmentKind::Static,
            Piece::Relative(instr) => FragmentKind::DynamicInstruction(instr),
        },
    }
}

/// The chain of fragments that `program` makes under `forms`.
pub open spec fn fragments_under(program: Program, forms: Forms) -> Seq<Fragment> {
    Seq::new(program.pieces.len(), |i: int| fragment_under(program, forms, i))
}

/// The chain of fragments of the finished program.
pub open spec fn resolved_fragments(program: Program) -> Seq<Fragment> {
    fragments_under(program, program.relaxed())
}

/// The fragments that a program makes form a chain, and the chain holds as
/// many bytes as the program is long.
pub proof fn lemma_fragments_chained(program: Program, forms: Forms)
    requires
        0 < program.pieces.len() < NO_NEXT,
        forms.len() == program.pieces.len(),
        program.reserved_len() <= u32::MAX,
    ensures
        chained(fragments_under(program, forms)),
        chain_len(fragments_under(program, forms)) == program.content_len(forms),
{
    let fragments = fragments_under(program, forms);
    let count = program.pieces.len() as int;
    assert forall|i: int| 0 <= i < count implies (#[trigger] fragments[i]).offset == program.start(
        forms,
        i,
    ) && fragments[i].buffer_length == program.pieces[i].len(forms[i]) && program.start(
        forms,
        i + 1,
    ) == program.start(forms, i) + program.pieces[i].len(forms[i]) by {
        program.lemma_within_reserved(forms, i);
        program.lemma_within_reserved(forms, i + 1);
    }
    assert(fragments.last() == fragments[count - 1]);
}

/// A walk along a chain of fragments, from the first one on.
pub struct FragmentIterator<'a> {
    fragments: &'a Vec<Fragment>,
    current: u32,
}

impl<'a> FragmentIterator<'a> {
    /// The fragments that are walked.
    pub closed spec fn fragments(&self) -> Seq<Fragment> {
        self.fragments@
    }

    /// The position of the fragment that comes next, or [`NO_NEXT`].
    pub closed spec fn position(&self) -> u32 {
        self.current
    }

    /// Whether the walk has a fragment to give.
    pub open spec fn has_next(&self) -> bool {
        self.position() != NO_NEXT && self.position() < self.fragments().len()
    }

    /// A walk along `fragments` that starts at the first of them.
    pub fn new(fragments: &'a Vec<Fragment>) -> (iterator: Self)
        ensures
            iterator.fragments() == fragments@,
            iterator.position() == 0,
    {
        Self { fragments, current: 0 }
    }

    /// The fragment at the current position, from which the walk moves on to
    /// the position that the fragment names; `None`, and no move, where the
    /// position is [`NO_NEXT`] or names no fragment.
    pub fn next(&mut self) -> (fragment: Option<&'a Fragment>)
        ensures
            final(self).fragments() == old(self).fragments(),
            old(self).has_next() ==> {
                let here = old(self).fragments()[old(self).position() as int];
                fragment == Some(&here) && final(self).position() == here.next_position
            },
            !old(self).has_next() ==> {
                fragment is None && final(self).position() == old(self).position()
            },
    {
        let current = self.current;
        if current == NO_NEXT || current as usize >= self.fragments.len() {
            return None;
        }
        let fragment = &self.fragments[current as usize];
        self.current = fragment.next_position;
        Some(fragment)
    }
}

} // verus!
