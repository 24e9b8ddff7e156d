//! Interactable actors: a bag of flavour lines, one of which is
//! chosen at random when the player examines the actor.

use vstd::prelude::*;

use bracket_random::prelude::RandomNumberGenerator;

use crate::message::Message;
use crate::rng::random_slice_index;

verus! {

/// The flavour lines an actor offers when examined.
pub struct Interaction {
    pub output: Vec<Message>,
}

impl Interaction {
    /// Picks one flavour line uniformly at random, or nothing when
    /// the actor has none.
    pub fn choose_line(&self, rng: &mut RandomNumberGenerator) -> (r: Option<usize>)
        requires
            self.output@.len() <= i32::MAX,
        ensures
            r is None <==> self.output@.len() == 0,
            r matches Some(i) ==> i < self.output@.len(),
    {
        random_slice_index(rng, self.output.len())
    }
}

} // verus!
