//! Procedurally assembled shapes.

use vstd::prelude::*;

verus! {

/// The parts of a drone: one body and any number of rotors, each stored as
/// whatever part representation the renderer uses.
#[derive(Clone, Debug)]
pub struct DroneParts<Part> {
    pub body: Part,
    pub rotors: Vec<Part>,
}

impl<Part> DroneParts<Part> {
    /// Assemble a drone from its body and its rotors.
    pub fn assemble(body: Part, rotors: Vec<Part>) -> (r: DroneParts<Part>)
        ensures
            r.body == body,
            r.rotors == rotors,
    {
        DroneParts { body, rotors }
    }
}

} // verus!
