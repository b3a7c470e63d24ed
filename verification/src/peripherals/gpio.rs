use vstd::prelude::*;

verus! {

/// A GPIO pin: its port and its pin number.
pub struct GPIO<P, N> {
    port: P,
    pin: N,
}

impl<P, N> GPIO<P, N> {
    pub closed spec fn spec_port(&self) -> P {
        self.port
    }

    pub closed spec fn spec_pin(&self) -> N {
        self.pin
    }

    pub fn new(port: P, pin: N) -> (g: Self)
        ensures
            g.spec_port() == port,
            g.spec_pin() == pin,
    {
        GPIO { port, pin }
    }
}

} // verus!
