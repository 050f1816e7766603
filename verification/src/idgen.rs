use vstd::prelude::*;

verus! {

/// Capability that hands out a fresh, effectively unique 128-bit
/// identifier on demand. Generation cannot fail, and nothing can be
/// promised of the value of a random draw.
pub trait IdGeneratorInterface {
    fn generate(&self) -> u128;
}

/// Identifier source backed by random version-4 UUIDs.
pub struct UuidGenerator;

impl UuidGenerator {
    pub fn new() -> (r: Self) {
        UuidGenerator
    }
}

/// Relies on uuid::Uuid::new_v4 and uuid::Uuid::as_u128: a freshly drawn
/// random version-4 UUID, read as its 128-bit value. Nothing is promised
/// of a random draw.
#[verifier::external_body]
fn new_v4_u128() -> u128 {
    uuid::Uuid::new_v4().as_u128()
}

impl IdGeneratorInterface for UuidGenerator {
    fn generate(&self) -> u128 {
        new_v4_u128()
    }
}

} // verus!
