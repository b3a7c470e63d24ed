use vstd::prelude::*;

verus! {

/// Why a peripheral could not be claimed.
#[derive(Clone, Copy, PartialEq, Eq, Structural, Debug)]
pub enum ClaimError {
    AlreadyClaimed,
    WrongType,
}

/// Peripherals that applications may claim from the kernel.
pub trait Claimable {}

/// Kernels that hand out claims on a peripheral of type `P`.
pub trait Claim<'p, P: Claimable> {
    fn claim(&'p mut self) -> Claimed<'p, P>;
}

} // verus!

verus! {

/// Exclusive access to a claimed peripheral, for as long as the claim lasts.
pub struct Claimed<'p, P: Claimable>(&'p mut P);

impl<'p, P: Claimable> Claimed<'p, P> {
    pub closed spec fn peripheral(&self) -> P {
        *self.0
    }

    /// The reference through which the claim reaches the peripheral.
    pub closed spec fn handle(&self) -> &'p mut P {
        self.0
    }

    /// A claim on `peripheral`.
    pub fn new(peripheral: &'p mut P) -> (c: Self)
        ensures
            c.peripheral() == *old(peripheral),
    {
        Claimed(peripheral)
    }

    /// Gives the peripheral back; giving back always succeeds.
    pub fn revoke(self) -> (r: Result<(), ClaimError>)
        ensures
            r is Ok,
    {
        Ok(())
    }

    /// Hands the peripheral to `f`, which works on it through its registers;
    /// the claim goes on holding the same peripheral.
    pub fn modify<F>(&mut self, mut f: F)
        where
            F: FnMut(&&mut P),
        requires
            forall|x: (&&mut P,)| call_requires(f, x),
        ensures
            final(self).peripheral() == old(self).peripheral(),
            call_ensures(f, (&old(self).handle(),), ()),
    {
        let peripheral = &self.0;
        f(peripheral)
    }

    /// What `f` reads from the peripheral.
    pub fn read<F, O>(&self, f: F) -> (o: O)
        where
            F: Fn(&P) -> O,
        requires
            call_requires(f, (&self.peripheral(),)),
        ensures
            call_ensures(f, (&self.peripheral(),), o),
    {
        let peripheral = &self.0;
        f(peripheral)
    }
}

} // verus!
