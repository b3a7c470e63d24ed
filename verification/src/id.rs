use vstd::prelude::*;

verus! {

/// Values that can serve as an id.
pub trait CanID: Sized + Copy {}

impl<T: Sized + Copy> CanID for T {}

/// A settable id.
pub struct ID<T: CanID> {
    id: T,
}

impl<T: CanID> ID<T> {
    pub closed spec fn value(&self) -> T {
        self.id
    }

    pub fn new(id: T) -> (r: Self)
        ensures
            r.value() == id,
    {
        ID { id }
    }

    pub fn get_id(&self) -> (r: T)
        ensures
            r == self.value(),
    {
        self.id
    }

    pub fn set(&mut self, value: T)
        ensures
            final(self).value() == value,
    {
        self.id = value;
    }
}

} // verus!
