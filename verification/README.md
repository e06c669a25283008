# schnapsen

Dreierschnapsen, the three-player Austrian trick-taking game with 20 cards, as a
Verus library: the cards, the game types and their rules, the trick rules
(Farb- und Stichzwang), scoring, and the state machines that run a deal, each
function with a contract that Verus proves.

Layout:

- `src/model/` – cards, deck, game types, seats, tricks and the deal state
  machine `GameState` with `valid_actions` and `apply_action`;
  `progress.rs` holds what the deal machine keeps: offered actions are
  accepted, someone who is to act always has an action, and no card is lost.
- `src/engine/` – the deal engine (`GameEngine`, move selectors, the move
  validator); `acceptance.rs` shows that a random selector's move is accepted
  and that the seat whose turn it is can always be asked to move.
- `src/rules/` – game declarations, regional options and round scoring.
- `src/variants.rs`, `src/round.rs` – a rule-set model with its round engine.
- `src/classic/` – the classic model (Rufer and two opponents) and its engine.
- `src/labels.rs` – texts for the terminal front end.
- `src/rng.rs` – the calls into `rand` (shuffling, picking, seeding).
- `app/` – the terminal program (ratatui and crossterm), outside verification.
- `tests/` – tests of the library.
