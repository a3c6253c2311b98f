use crate::models::program::distinct;
use vstd::hash_map::StringHashMap;
use vstd::prelude::*;

verus! {

/// The names that were interned, each with the number it was given: the
/// first name seen has number 0, and every new name the next number.
pub struct NameTable {
    names: Vec<String>,
    numbers: StringHashMap<u32>,
}

impl View for NameTable {
    type V = Seq<Seq<char>>;

    /// The names in the order in which they were first seen: a name's place
    /// is its number.
    closed spec fn view(&self) -> Seq<Seq<char>> {
        Seq::new(self.names@.len(), |i: int| self.names@[i]@)
    }
}

impl NameTable {
    /// Every name has one number, and the lookup table agrees with the list.
    pub closed spec fn wf(&self) -> bool {
        &&& self.names@.len() <= u32::MAX
        &&& forall|i: int|
            0 <= i < self.names@.len() ==> self.numbers@.contains_key(#[trigger] self.names@[i]@)
                && self.numbers@[self.names@[i]@] == i
        &&& forall|name: Seq<char>| #[trigger]
            self.numbers@.contains_key(name) ==> self.numbers@[name] < self.names@.len()
                && self.names@[self.numbers@[name] as int]@ == name
    }

    /// In a table that is well formed no name stands twice, and there are
    /// no more names than numbers.
    pub proof fn lemma_wf(&self)
        requires
            self.wf(),
        ensures
            distinct(self@),
            self@.len() <= u32::MAX,
    {
        assert forall|i: int, j: int| 0 <= i < j < self@.len() implies self@[i] != self@[j] by {
            assert(self.numbers@[self.names@[i]@] == i);
            assert(self.numbers@[self.names@[j]@] == j);
        }
    }

    /// The table without a name.
    #[must_use]
    pub fn new() -> (table: Self)
        ensures
            table.wf(),
            table@ == Seq::<Seq<char>>::empty(),
    {
        let table = Self { names: Vec::new(), numbers: StringHashMap::new() };
        assert(table@ =~= Seq::<Seq<char>>::empty());
        table
    }

    /// How many names the table holds.
    #[must_use]
    pub fn len(&self) -> (count: usize)
        requires
            self.wf(),
        ensures
            count == self@.len(),
            count <= u32::MAX,
    {
        self.names.len()
    }

    /// The number of `name`, if the table holds it.
    #[must_use]
    pub fn lookup(&self, name: &str) -> (number: Option<u32>)
        requires
            self.wf(),
        ensures
            number matches Some(n) ==> n < self@.len() && self@[n as int] == name@,
            number is None ==> !self@.contains(name@),
    {
        match self.numbers.get(name) {
            Some(number) => Some(*number),
            None => {
                assert forall|i: int| 0 <= i < self@.len() implies self@[i] != name@ by {
                    assert(self.numbers@.contains_key(self.names@[i]@));
                }
                None
            },
        }
    }

    /// The name with the number `number`.
    #[must_use]
    pub fn name(&self, number: usize) -> (name: &String)
        requires
            number < self@.len(),
        ensures
            name@ == self@[number as int],
    {
        &self.names[number]
    }

    /// The number of `name`: the one it has, or, for a name not seen before,
    /// the next free one, which it then keeps.
    pub fn intern(&mut self, name: &str) -> (number: u32)
        requires
            old(self).wf(),
            old(self)@.len() < u32::MAX,
        ensures
            final(self).wf(),
            old(self)@.contains(name@) ==> final(self)@ == old(self)@,
            !old(self)@.contains(name@) ==> final(self)@ == old(self)@.push(name@) && number
                == old(self)@.len(),
            number < final(self)@.len(),
            final(self)@[number as int] == name@,
    {
        match self.lookup(name) {
            Some(number) => number,
            None => {
                let number = self.names.len() as u32;
                self.names.push(name.to_owned());
                self.numbers.insert(name.to_owned(), number);
                proof {
                    assert(self@ =~= old(self)@.push(name@));
                    assert forall|i: int| 0 <= i < self.names@.len() implies self.numbers@.contains_key(
                        #[trigger] self.names@[i]@,
                    ) && self.numbers@[self.names@[i]@] == i by {
                        if i < old(self).names@.len() {
                            assert(old(self)@[i] == old(self).names@[i]@);
                            assert(old(self)@.contains(old(self)@[i]));
                        }
                    }
                }
                number
            },
        }
    }
}

} // verus!
