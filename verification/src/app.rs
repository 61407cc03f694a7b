use vstd::prelude::*;
use crate::world::{default_alphabet, CharacterState, Item, World, LENGTH};

verus! {

/// The state the presentation layer owns: a status line for display and the
/// running game. The presentation layer reads both to redraw, and forwards
/// input events to the game.
pub struct TemplateApp {
    /// A status line ("good", or the last submission error's message).
    pub label: String,
    /// The game engine state.
    pub world: World,
}

impl Default for TemplateApp {
    /// A fresh application with a fixed secret word and the standard keyboard.
    fn default() -> (r: Self)
        ensures
            r.label@ == "Hello World!"@,
            r.world.wf(),
            r.world.result@ == "hello"@,
            r.world.cursor == (0usize, 0usize),
            forall|i: int, j: int| 0 <= i < LENGTH && 0 <= j < LENGTH
                ==> #[trigger] r.world.grid@[i]@[j] == Item::default_spec(),
            r.world.characters@.len() == default_alphabet().len(),
            forall|j: int| 0 <= j < default_alphabet().len()
                ==> #[trigger] r.world.characters@[j] == (Item {
                    inner: default_alphabet()[j],
                    state: CharacterState::Untouch,
                }),
    {
        proof {
            reveal_strlit("hello");
            assert("hello"@.len() == LENGTH);
        }
        TemplateApp {
            label: "Hello World!".to_owned(),
            world: World::new("hello".to_owned(), "qwertyuiopasdfghjklzxcvbnm".to_owned()),
        }
    }
}

} // verus!
