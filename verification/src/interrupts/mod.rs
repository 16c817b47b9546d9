//! Local APIC programming and interrupt controller discovery.

pub mod apic;
pub mod lapic;
pub mod vectors;
