//! A property-test driver with integrated shrinking for compiled programs
//! that run on a cost-metered virtual machine and exchange values in a
//! tagged data format.
//!
//! The crate owns the protocol between the driver and a fuzzer program
//! (a pseudo-random source encoded as data), the test-evaluation loop,
//! and the minimization of failing random-choice sequences. The virtual
//! machine itself is an external collaborator reached through the
//! [`vm::VmBridge`] trait; a pure reference implementation lives in
//! [`model`].

pub mod assertion;
pub mod counterexample;
pub mod data;
pub mod framework;
pub mod model;
pub mod property;
pub mod prng;
pub mod result;
pub mod unit;
pub mod vm;
