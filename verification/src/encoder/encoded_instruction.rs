use crate::constants::MAX_INSTRUCTION_SIZE;
use crate::encoder::errors::EncodingError;
use vstd::prelude::*;

verus! {

/// One encoded instruction: up to 15 bytes, the most an instruction of the
/// architecture can take, held without allocation together with their count.
#[derive(Clone, Copy, Debug)]
pub struct EncodedInstruction {
    len: u8,
    buffer: [u8; MAX_INSTRUCTION_SIZE],
}

impl View for EncodedInstruction {
    type V = Seq<u8>;

    /// The bytes of the instruction, in the order in which they are emitted.
    closed spec fn view(&self) -> Seq<u8> {
        self.buffer@.subrange(0, self.len as int)
    }
}

impl EncodedInstruction {
    #[verifier::type_invariant]
    spec fn within_capacity(self) -> bool {
        self.len <= MAX_INSTRUCTION_SIZE
    }

    /// The instruction made of the first `len` bytes of `buffer`.
    #[must_use]
    pub fn new_unchecked(len: u8, buffer: [u8; MAX_INSTRUCTION_SIZE]) -> (encoded: Self)
        requires
            len <= MAX_INSTRUCTION_SIZE,
        ensures
            encoded@ == buffer@.subrange(0, len as int),
    {
        Self { len, buffer }
    }

    /// The instruction made of all the bytes of `array`.
    #[must_use]
    pub fn from_array_unchecked<const T: usize>(array: [u8; T]) -> (encoded: Self)
        requires
            T <= MAX_INSTRUCTION_SIZE,
        ensures
            encoded@ == array@,
    {
        let mut buffer = [0u8; MAX_INSTRUCTION_SIZE];
        let mut idx: usize = 0;
        while idx < T
            invariant
                idx <= T <= MAX_INSTRUCTION_SIZE,
                forall|i: int| 0 <= i < idx ==> buffer@[i] == array@[i],
            decreases T - idx,
        {
            buffer[idx] = array[idx];
            idx += 1;
        }
        assert(buffer@.subrange(0, T as int) =~= array@);
        Self::new_unchecked(T as u8, buffer)
    }

    /// The instruction of no bytes, to be filled by [`Self::push`].
    #[must_use]
    pub fn empty() -> (encoded: Self)
        ensures
            encoded@ == Seq::<u8>::empty(),
    {
        let encoded = Self { len: 0, buffer: [0u8; MAX_INSTRUCTION_SIZE] };
        assert(encoded@ =~= Seq::<u8>::empty());
        encoded
    }

    /// Appends one byte.
    pub fn push(&mut self, byte: u8)
        requires
            old(self)@.len() < MAX_INSTRUCTION_SIZE,
        ensures
            final(self)@ == old(self)@.push(byte),
    {
        proof {
            use_type_invariant(&*self);
        }
        let idx = self.len as usize;
        self.buffer[idx] = byte;
        self.len = self.len + 1;
        assert(self@ =~= old(self)@.push(byte));
    }

    /// The bytes of the instruction.
    #[must_use]
    pub fn as_slice(&self) -> (bytes: &[u8])
        ensures
            bytes@ == self@,
    {
        proof {
            use_type_invariant(self);
        }
        vstd::slice::slice_subrange(self.buffer.as_slice(), 0, self.len as usize)
    }

    /// The number of bytes of the instruction.
    #[must_use]
    pub fn len(&self) -> (len: u8)
        ensures
            len == self@.len(),
            len <= MAX_INSTRUCTION_SIZE,
    {
        proof {
            use_type_invariant(self);
        }
        self.len
    }
}

/// Whether an encoder's result is what was expected of it: the same bytes,
/// or the same error.
pub open spec fn encodes(
    result: Result<EncodedInstruction, EncodingError>,
    expected: Result<Seq<u8>, EncodingError>,
) -> bool {
    match result {
        Ok(encoded) => expected == Ok::<Seq<u8>, EncodingError>(encoded@),
        Err(error) => expected == Err::<Seq<u8>, EncodingError>(error),
    }
}

} // verus!
