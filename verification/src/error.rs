use vstd::prelude::*;

verus! {

/// The two recoverable failures of a guess submission. Both leave the game
/// state untouched: the caller re-prompts and the player corrects the row.
#[derive(Clone, Copy, Debug, PartialEq, Eq, Structural)]
pub enum InputError {
    /// The current row is not completely filled.
    NotEnoughLetters,
    /// The row is full, but its word is not in the dictionary.
    NotInWordList,
}

impl InputError {
    /// A short human-readable message for display by the presentation layer.
    pub fn message(&self) -> (r: String)
        ensures
            *self == InputError::NotEnoughLetters ==> r@ == "Not enough letters"@,
            *self == InputError::NotInWordList ==> r@ == "Not in word list"@,
    {
        match self {
            InputError::NotEnoughLetters => "Not enough letters".to_owned(),
            InputError::NotInWordList => "Not in word list".to_owned(),
        }
    }
}

} // verus!
