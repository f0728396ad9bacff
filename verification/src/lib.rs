//! Peripheral-identity and pin-multiplexing validation for a family of
//! SAM D microcontrollers.
//!
//! The crate models, per chip variant, which serial-communication
//! peripheral instances exist (the registry), which physical pins may
//! serve which peripheral in which functional role (the capability
//! table), and which complete pin groupings are sanctioned wirings (the
//! IoSet catalog).  A resolver checks a caller's role-to-pin assignment
//! against those tables and, on success, hands out a pad binding while
//! recording pin ownership, so that no pin can be claimed by two live
//! bindings.  A clock gate controller models the bus-clock mask
//! registers and asserts a peripheral's enable bit idempotently.
#![allow(non_camel_case_types)]

pub mod pin;
pub mod variant;
pub mod registry;
pub mod capability;
pub mod catalog;
pub mod resolver;
pub mod clock;
pub mod ofr;
pub mod itctrl;
