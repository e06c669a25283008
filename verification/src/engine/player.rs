//! Players that choose an action from the visible game state.

use vstd::prelude::*;
use vstd::string::StringExecFns;
use crate::model::game::GameState;
use crate::model::types::Action;
use rand::rngs::StdRng;

verus! {

/// A player implementation that selects an action given the visible game state.
pub trait Player {
    fn choose_action(&mut self, state: &GameState) -> Action
        requires
            state@.wf(),
            state@.valid_actions().len() > 0,
    ;

    fn name(&self) -> &str;
}

/// A player that picks uniformly at random from valid actions.
pub struct RandomPlayer {
    name: String,
    rng: StdRng,
}

impl RandomPlayer {
    /// The player's name.
    pub closed spec fn name_spec(&self) -> Seq<char> {
        self.name@
    }

    /// A random player with a generator seeded by the operating system (the generator of
    /// a fixed seed when the operating system gives no randomness).
    pub fn new(name: &str) -> (p: Self)
        ensures
            p.name_spec() == name@,
    {
        Self { name: String::from_str(name), rng: crate::rng::fresh_generator() }
    }
}

impl Player for RandomPlayer {
    fn choose_action(&mut self, state: &GameState) -> (a: Action)
        ensures
            state@.valid_actions().contains(a),
    {
        let actions = state.valid_actions();
        match crate::rng::pick(actions.as_slice(), &mut self.rng) {
            Some(a) => a,
            None => {
                assert(false);
                actions[0]
            },
        }
    }

    fn name(&self) -> (n: &str)
        ensures
            n@ == self.name_spec(),
    {
        self.name.as_str()
    }
}

} // verus!
