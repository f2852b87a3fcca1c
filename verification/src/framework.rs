//! The two kinds of tests: a unit test is a compiled program that must
//! return a boolean; a property test additionally takes a generated
//! argument and names a fuzzer to draw it from.

use vstd::prelude::*;

use crate::assertion::Assertion;
use crate::property::PropertyTest;
use crate::unit::UnitTest;

verus! {

/// A runnable test of either kind.
#[derive(Debug)]
pub enum Test {
    UnitTest(UnitTest),
    PropertyTest(PropertyTest),
}

impl Test {
    /// Wrap unit-test metadata; the compiled program stays with the
    /// virtual machine.
    pub fn unit_test(
        input_path: String,
        module: String,
        name: String,
        can_error: bool,
        assertion: Option<Assertion>,
    ) -> (r: Test)
        ensures
            r matches Test::UnitTest(u) && u.input_path == input_path && u.module == module
                && u.name == name && u.can_error == can_error && u.assertion == assertion,
    {
        Test::UnitTest(UnitTest { input_path, module, name, can_error, assertion })
    }

    /// Wrap property-test metadata; the compiled program and the fuzzer
    /// stay with the virtual machine.
    pub fn property_test(
        input_path: String,
        module: String,
        name: String,
        can_error: bool,
    ) -> (r: Test)
        ensures
            r matches Test::PropertyTest(p) && p.input_path == input_path && p.module == module
                && p.name == name && p.can_error == can_error,
    {
        Test::PropertyTest(PropertyTest { input_path, module, name, can_error })
    }
}

} // verus!
