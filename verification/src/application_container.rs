use vstd::prelude::*;
use vstd::string::StringSliceAdditionalSpecFns;

verus! {

/// What the kernel knows of an application or driver: its name, the address
/// of a driver's state (applications have none) and the addresses of its
/// `init`, `main` and `interrupt` entry points.
#[derive(Clone, Copy)]
pub struct AppContainer<'a> {
    name: &'a str,
    driver_struct: Option<usize>,
    init_addr: usize,
    main_addr: usize,
    interrupt_addr: usize,
}

impl<'a> AppContainer<'a> {
    pub closed spec fn spec_name(&self) -> &'a str {
        self.name
    }

    /// The bytes of the name.
    pub closed spec fn name_bytes(&self) -> Seq<u8> {
        self.name.spec_bytes()
    }

    pub closed spec fn spec_driver_struct(&self) -> Option<usize> {
        self.driver_struct
    }

    pub closed spec fn spec_init_addr(&self) -> usize {
        self.init_addr
    }

    pub closed spec fn spec_main_addr(&self) -> usize {
        self.main_addr
    }

    pub closed spec fn spec_interrupt_addr(&self) -> usize {
        self.interrupt_addr
    }

    pub fn new(
        name: &'a str,
        app_struct: Option<usize>,
        app_init_addr: usize,
        app_main_addr: usize,
        app_interrupt_addr: usize,
    ) -> (r: Self)
        ensures
            r.spec_name() == name,
            r.name_bytes() == name.spec_bytes(),
            r.spec_driver_struct() == app_struct,
            r.spec_init_addr() == app_init_addr,
            r.spec_main_addr() == app_main_addr,
            r.spec_interrupt_addr() == app_interrupt_addr,
    {
        AppContainer {
            name,
            driver_struct: app_struct,
            init_addr: app_init_addr,
            main_addr: app_main_addr,
            interrupt_addr: app_interrupt_addr,
        }
    }

    pub fn name(&self) -> (r: &'a str)
        ensures
            r == self.spec_name(),
            r.spec_bytes() == self.name_bytes(),
    {
        self.name
    }

    /// The name as bytes.
    pub fn name_as_bytes(&self) -> (r: &'a [u8])
        ensures
            r@ == self.name_bytes(),
    {
        self.name.as_bytes()
    }

    pub fn driver_struct(&self) -> (r: &Option<usize>)
        ensures
            *r == self.spec_driver_struct(),
    {
        &self.driver_struct
    }

    pub fn init_addr(&self) -> (r: usize)
        ensures
            r == self.spec_init_addr(),
    {
        self.init_addr
    }

    pub fn main_addr(&self) -> (r: usize)
        ensures
            r == self.spec_main_addr(),
    {
        self.main_addr
    }

    pub fn interrupt_addr(&self) -> (r: usize)
        ensures
            r == self.spec_interrupt_addr(),
    {
        self.interrupt_addr
    }
}

/// What the kernel is to run of an application next.
#[derive(Clone, Copy, PartialEq, Eq, Structural, Debug)]
pub enum RunApplication {
    Idle,
    Init,
    Main,
    Interrupt,
    Jumped,
    Abort,
}

} // verus!
