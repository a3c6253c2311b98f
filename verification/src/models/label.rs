use vstd::prelude::*;

verus! {

/// A position marker that instructions may refer to before or after it is
/// bound. A label is nothing but its identifier: two labels are the same
/// label exactly when their identifiers agree.
#[derive(PartialEq, Eq, Structural, Hash, Clone, Copy, Debug)]
pub struct Label {
    pub id: u32,
}

impl Label {
    /// The identifier this label carries.
    pub open spec fn spec_id(self) -> u32 {
        self.id
    }

    /// The label with the identifier `val`.
    #[must_use]
    pub fn new(val: u32) -> (label: Self)
        ensures
            label == (Label { id: val }),
    {
        Self { id: val }
    }

    /// The identifier this label carries.
    #[must_use]
    #[verifier::when_used_as_spec(spec_id)]
    pub fn id(self) -> (id: u32)
        ensures
            id == self.id,
    {
        self.id
    }
}

} // verus!
