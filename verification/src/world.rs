use vstd::prelude::*;
use vstd::string::StrSliceExecFns;
use crate::dict::Dictionary;
use crate::error::InputError;

verus! {

/// Number of letters in a word; the board also has this many guess rows.
pub const LENGTH: usize = 5;

/// The feedback status of one letter, on the grid or on the keyboard.
#[derive(Clone, Copy, Debug, PartialEq, Eq, Structural)]
pub enum CharacterState {
    /// No value entered yet (grid cell) / letter not used by any guess (keyboard).
    Untouch,
    /// Typed into the in-progress row, not yet scored.
    Buffer,
    /// The letter matches the secret word at this exact position.
    Right,
    /// The letter exists in the secret word, but not at this position.
    WrongPos,
    /// The letter does not exist in the secret word.
    Wrong,
}

impl Default for CharacterState {
    fn default() -> (r: Self)
        ensures
            r == CharacterState::Untouch,
    {
        Self::Untouch
    }
}

/// One cell of the grid, or one key of the keyboard: a character with its
/// feedback status.
#[derive(Clone, Copy, Debug, PartialEq, Eq, Structural)]
pub struct Item {
    pub inner: char,
    pub state: CharacterState,
}

impl Item {
    pub fn new(inner: char, state: CharacterState) -> (r: Self)
        ensures
            r == (Item { inner, state }),
    {
        Self { inner, state }
    }
}

impl Default for Item {
    /// An empty cell: a space character, untouched.
    fn default() -> (r: Self)
        ensures
            r == (Item { inner: ' ', state: CharacterState::Untouch }),
    {
        Self { inner: ' ', state: CharacterState::Untouch }
    }
}

/// Relies on String's `FromIterator<char>`: collecting an iterator of
/// characters yields a string of exactly those characters, in order.
#[verifier::external_body]
fn chars_to_string(v: &Vec<char>) -> (r: String)
    ensures
        r@ == v@,
{
    v.iter().collect()
}

/// The characters of one grid row, in order.
pub open spec fn row_word(row: Seq<Item>) -> Seq<char> {
    row.map_values(|it: Item| it.inner)
}

/// The keyboard ordering used for a default game.
pub open spec fn default_alphabet() -> Seq<char> {
    "qwertyuiopasdfghjklzxcvbnm"@
}

/// The whole state of one game: the secret word, the grid of guesses, the
/// cursor at the next editable cell, and the keyboard feedback entries.
#[derive(Debug)]
pub struct World {
    /// The secret word, as exactly `LENGTH` characters.
    pub result: Vec<char>,
    /// `(row, col)`: the next editable cell. `row` counts submitted guesses.
    pub cursor: (usize, usize),
    /// `LENGTH` rows of `LENGTH` cells each.
    pub grid: Vec<Vec<Item>>,
    /// One entry per key of the display keyboard.
    pub characters: Vec<Item>,
}

impl World {
    /// The structural invariant: full secret, a `LENGTH` x `LENGTH` grid, and
    /// a cursor inside the grid (its row may sit one past the last row, once
    /// every attempt has been submitted).
    pub open spec fn wf(self) -> bool {
        &&& self.result@.len() == LENGTH
        &&& self.grid@.len() == LENGTH
        &&& forall|i: int| 0 <= i < LENGTH ==> (#[trigger] self.grid@[i])@.len() == LENGTH
        &&& self.cursor.1 < LENGTH
        &&& self.cursor.0 <= LENGTH
    }

    /// The characters of the row the cursor sits on.
    pub open spec fn current_row_word(self) -> Seq<char> {
        row_word(self.grid@[self.cursor.0 as int]@)
    }

    /// Whether two game states hold the same values, field by field.
    pub open spec fn state_eq(self, other: World) -> bool {
        &&& self.result@ == other.result@
        &&& self.cursor == other.cursor
        &&& self.grid@.len() == other.grid@.len()
        &&& forall|i: int| 0 <= i < self.grid@.len()
            ==> (#[trigger] self.grid@[i])@ == other.grid@[i]@
        &&& self.characters@ == other.characters@
    }

    /// A fresh game: `w` becomes the secret word, `characters` the keyboard
    /// ordering; the board is empty and the cursor is at the origin.
    pub fn new(w: String, characters: String) -> (r: World)
        requires
            w@.len() == LENGTH,
        ensures
            r.wf(),
            r.result@ == w@,
            r.cursor == (0usize, 0usize),
            forall|i: int, j: int| 0 <= i < LENGTH && 0 <= j < LENGTH
                ==> #[trigger] r.grid@[i]@[j] == Item::default_spec(),
            r.characters@.len() == characters@.len(),
            forall|j: int| 0 <= j < characters@.len() ==> #[trigger] r.characters@[j]
                == (Item { inner: characters@[j], state: CharacterState::Untouch }),
    {
        let mut grid: Vec<Vec<Item>> = Vec::new();
        for i in 0..LENGTH
            invariant
                grid@.len() == i,
                forall|a: int, b: int| 0 <= a < i && 0 <= b < LENGTH
                    ==> #[trigger] grid@[a]@[b] == Item::default_spec(),
                forall|a: int| 0 <= a < i ==> (#[trigger] grid@[a])@.len() == LENGTH,
        {
            let mut row: Vec<Item> = Vec::new();
            for j in 0..LENGTH
                invariant
                    row@.len() == j,
                    forall|b: int| 0 <= b < j ==> #[trigger] row@[b] == Item::default_spec(),
            {
                row.push(Item::default());
            }
            grid.push(row);
        }

        let mut result: Vec<char> = Vec::new();
        for i in 0..LENGTH
            invariant
                w@.len() == LENGTH,
                result@ =~= w@.subrange(0, i as int),
        {
            result.push(w.as_str().get_char(i));
        }
        proof {
            assert(result@ =~= w@);
        }

        let n = characters.as_str().unicode_len();
        let mut keyboard: Vec<Item> = Vec::new();
        let mut j: usize = 0;
        while j < n
            invariant
                n == characters@.len(),
                j <= n,
                keyboard@.len() == j,
                forall|b: int| 0 <= b < j ==> #[trigger] keyboard@[b]
                    == (Item { inner: characters@[b], state: CharacterState::Untouch }),
            decreases n - j,
        {
            keyboard.push(Item::new(characters.as_str().get_char(j), CharacterState::Untouch));
            j += 1;
        }

        World { result, cursor: (0, 0), grid, characters: keyboard }
    }

    /// Replaces the game by a freshly constructed one: a new secret drawn at
    /// random from the dictionary, an empty board, the cursor at the origin,
    /// and an untouched keyboard in the standard ordering. No prior state
    /// survives.
    pub fn reset(&mut self, dict: &Dictionary)
        requires
            dict.wf(),
            dict@.len() > 0,
        ensures
            final(self).wf(),
            final(self).cursor == (0usize, 0usize),
            final(self).result@.len() == LENGTH,
            dict.contains_word(final(self).result@),
            forall|i: int, j: int| 0 <= i < LENGTH && 0 <= j < LENGTH
                ==> #[trigger] final(self).grid@[i]@[j] == Item::default_spec(),
            final(self).characters@.len() == default_alphabet().len(),
            forall|j: int| 0 <= j < default_alphabet().len()
                ==> #[trigger] final(self).characters@[j] == (Item {
                    inner: default_alphabet()[j],
                    state: CharacterState::Untouch,
                }),
    {
        let w = dict.random_word();
        *self = World::new(w, "qwertyuiopasdfghjklzxcvbnm".to_owned());
    }

    /// Types `input` at the cursor. When the current cell already holds a
    /// `Buffer` letter and a further column exists, the cursor first advances
    /// one column and the letter lands there; otherwise the current cell is
    /// overwritten in place. The cursor column always stays inside the row.
    pub fn input_char(&mut self, input: char)
        requires
            old(self).wf(),
            old(self).cursor.0 < LENGTH,
        ensures
            final(self).wf(),
            0 <= final(self).cursor.1 < LENGTH,
            final(self).cursor.0 == old(self).cursor.0,
            final(self).result@ == old(self).result@,
            final(self).characters@ == old(self).characters@,
            final(self).grid@.len() == old(self).grid@.len(),
            forall|i: int| 0 <= i < LENGTH && i != old(self).cursor.0
                ==> (#[trigger] final(self).grid@[i])@ == old(self).grid@[i]@,
            ({
                let r0 = old(self).cursor.0 as int;
                let c0 = old(self).cursor.1 as int;
                let advanced = old(self).grid@[r0]@[c0].state == CharacterState::Buffer
                    && c0 + 1 < LENGTH;
                let c1 = if advanced { c0 + 1 } else { c0 };
                &&& final(self).cursor.1 == c1
                &&& final(self).grid@[r0]@ == old(self).grid@[r0]@.update(
                    c1,
                    Item { inner: input, state: CharacterState::Buffer },
                )
            }),
    {
        let row = self.cursor.0;
        let current = self.grid[row][self.cursor.1];
        if self.cursor.1 + 1 < LENGTH && current.state == CharacterState::Buffer {
            self.cursor.1 += 1;
        }
        let col = self.cursor.1;
        self.grid[row][col] = Item::new(input, CharacterState::Buffer);
    }

    /// Clears the cell at the cursor back to an empty cell, then moves the
    /// cursor one column left unless it is already at column zero.
    pub fn delete_char(&mut self)
        requires
            old(self).wf(),
            old(self).cursor.0 < LENGTH,
        ensures
            final(self).wf(),
            final(self).cursor.0 == old(self).cursor.0,
            final(self).cursor.1 == if old(self).cursor.1 > 0 {
                old(self).cursor.1 - 1
            } else {
                0int
            },
            final(self).result@ == old(self).result@,
            final(self).characters@ == old(self).characters@,
            final(self).grid@.len() == old(self).grid@.len(),
            forall|i: int| 0 <= i < LENGTH && i != old(self).cursor.0
                ==> (#[trigger] final(self).grid@[i])@ == old(self).grid@[i]@,
            final(self).grid@[old(self).cursor.0 as int]@ == old(self).grid@[old(
                self,
            ).cursor.0 as int]@.update(old(self).cursor.1 as int, Item::default_spec()),
    {
        let row = self.cursor.0;
        let col = self.cursor.1;
        self.grid[row][col] = Item::default();
        if self.cursor.1 > 0 {
            self.cursor.1 -= 1;
        }
    }

    /// Whether the secret word holds the character `c` anywhere.
    fn secret_has(&self, c: char) -> (b: bool)
        ensures
            b == self.result@.contains(c),
    {
        let mut i: usize = 0;
        while i < self.result.len()
            invariant
                i <= self.result@.len(),
                forall|k: int| 0 <= k < i ==> self.result@[k] != c,
            decreases self.result@.len() - i,
        {
            if self.result[i] == c {
                return true;
            }
            i += 1;
        }
        false
    }

    /// Validates the current row: it must be full, and its word must be in
    /// the dictionary. On success the row's word is returned; on failure the
    /// matching error. Nothing is mutated.
    pub fn check_input(&self, dict: &Dictionary) -> (r: Result<String, InputError>)
        requires
            self.wf(),
            self.cursor.0 < LENGTH,
            dict.wf(),
        ensures
            self.cursor.1 + 1 != LENGTH ==> r == Err::<String, InputError>(
                InputError::NotEnoughLetters,
            ),
            self.cursor.1 + 1 == LENGTH && !dict.contains_word(self.current_row_word())
                ==> r == Err::<String, InputError>(InputError::NotInWordList),
            self.cursor.1 + 1 == LENGTH && dict.contains_word(self.current_row_word())
                ==> (r matches Ok(s) && s@ == self.current_row_word()),
    {
        if self.cursor.1 + 1 != LENGTH {
            return Err(InputError::NotEnoughLetters);
        }
        let row = self.cursor.0;
        let mut chars: Vec<char> = Vec::new();
        let mut i: usize = 0;
        while i < LENGTH
            invariant
                self.wf(),
                row == self.cursor.0,
                row < LENGTH,
                i <= LENGTH,
                chars@.len() == i,
                forall|k: int| 0 <= k < i ==> #[trigger] chars@[k] == self.grid@[row as int]@[k].inner,
            decreases LENGTH - i,
        {
            chars.push(self.grid[row][i].inner);
            i += 1;
        }
        let s = chars_to_string(&chars);
        proof {
            assert(s@ =~= self.current_row_word());
        }
        if dict.contains(&s) {
            Ok(s)
        } else {
            Err(InputError::NotInWordList)
        }
    }

    /// Submits the current row as a guess. A partial row fails with
    /// `NotEnoughLetters`, a full row with an unknown word fails with
    /// `NotInWordList`; both leave the state untouched. Otherwise every cell
    /// of the row receives its score against the secret word, each scored
    /// letter upgrades its keyboard entry (never downgrading a more
    /// informative status), the cursor moves to the start of the next row,
    /// and the guessed word is returned.
    pub fn enter(&mut self, dict: &Dictionary) -> (r: Result<String, InputError>)
        requires
            old(self).wf(),
            old(self).cursor.0 < LENGTH,
            dict.wf(),
        ensures
            final(self).wf(),
            old(self).cursor.1 + 1 != LENGTH ==> r == Err::<String, InputError>(
                InputError::NotEnoughLetters,
            ) && final(self).state_eq(*old(self)),
            old(self).cursor.1 + 1 == LENGTH && !dict.contains_word(old(self).current_row_word())
                ==> r == Err::<String, InputError>(InputError::NotInWordList)
                && final(self).state_eq(*old(self)),
            old(self).cursor.1 + 1 == LENGTH && dict.contains_word(old(self).current_row_word())
                ==> ({
                let w = old(self).current_row_word();
                let secret = old(self).result@;
                let r0 = old(self).cursor.0 as int;
                &&& (r matches Ok(s) && s@ == w)
                &&& final(self).cursor.0 == old(self).cursor.0 + 1
                &&& final(self).cursor.1 == 0
                &&& final(self).result@ == secret
                &&& forall|i: int| 0 <= i < LENGTH && i != r0
                    ==> (#[trigger] final(self).grid@[i])@ == old(self).grid@[i]@
                &&& forall|k: int| 0 <= k < LENGTH ==> #[trigger] final(self).grid@[r0]@[k]
                    == (Item { inner: w[k], state: score_char(secret, k, w[k]) })
                &&& final(self).characters@.len() == old(self).characters@.len()
                &&& forall|j: int| 0 <= j < old(self).characters@.len()
                    ==> #[trigger] final(self).characters@[j] == (Item {
                        inner: old(self).characters@[j].inner,
                        state: alpha_after(
                            old(self).characters@[j].state,
                            old(self).characters@[j].inner,
                            w,
                            secret,
                            LENGTH as int,
                        ),
                    })
            }),
    {
        let s = match self.check_input(dict) {
            Ok(s) => s,
            Err(e) => {
                return Err(e);
            },
        };
        let row = self.cursor.0;
        let ghost secret = self.result@;
        let ghost w = s@;
        let ghost chars0 = self.characters@;
        let ghost grid0 = self.grid@;
        proof {
            assert(forall|k: int| 0 <= k < LENGTH ==> w[k] == grid0[row as int]@[k].inner);
        }

        for idx in 0..LENGTH
            invariant
                self.wf(),
                dict.wf(),
                row == self.cursor.0,
                row < LENGTH,
                self.cursor.1 == old(self).cursor.1,
                self.result@ == secret,
                secret.len() == LENGTH,
                s@ == w,
                w.len() == LENGTH,
                forall|k: int| 0 <= k < LENGTH ==> w[k] == grid0[row as int]@[k].inner,
                self.grid@.len() == LENGTH,
                grid0.len() == LENGTH,
                forall|i: int| 0 <= i < LENGTH && i != row
                    ==> (#[trigger] self.grid@[i])@ == grid0[i]@,
                forall|k: int| 0 <= k < idx ==> #[trigger] self.grid@[row as int]@[k]
                    == (Item { inner: w[k], state: score_char(secret, k, w[k]) }),
                forall|k: int| idx <= k < LENGTH ==> #[trigger] self.grid@[row as int]@[k]
                    == grid0[row as int]@[k],
                self.characters@.len() == chars0.len(),
                forall|j: int| 0 <= j < chars0.len() ==> #[trigger] self.characters@[j] == (Item {
                    inner: chars0[j].inner,
                    state: alpha_after(chars0[j].state, chars0[j].inner, w, secret, idx as int),
                }),
        {
            let c = self.grid[row][idx].inner;
            let st: CharacterState;
            if self.secret_has(c) {
                if self.result[idx] == c {
                    st = CharacterState::Right;
                } else {
                    st = CharacterState::WrongPos;
                }
            } else {
                st = CharacterState::Wrong;
            }
            proof {
                assert(c == w[idx as int]);
                assert(st == score_char(secret, idx as int, c));
            }
            self.grid[row][idx] = Item::new(c, st);

            let mut j: usize = 0;
            while j < self.characters.len()
                invariant
                    self.wf(),
                    row == self.cursor.0,
                    row < LENGTH,
                    self.cursor.1 == old(self).cursor.1,
                    self.result@ == secret,
                    idx < LENGTH,
                    c == w[idx as int],
                    st == score_char(secret, idx as int, c),
                    self.grid@.len() == LENGTH,
                    forall|i: int| 0 <= i < LENGTH && i != row
                        ==> (#[trigger] self.grid@[i])@ == grid0[i]@,
                    forall|k: int| 0 <= k < idx + 1 ==> #[trigger] self.grid@[row as int]@[k]
                        == (Item { inner: w[k], state: score_char(secret, k, w[k]) }),
                    forall|k: int| idx + 1 <= k < LENGTH ==> #[trigger] self.grid@[row as int]@[k]
                        == grid0[row as int]@[k],
                    j <= self.characters@.len(),
                    self.characters@.len() == chars0.len(),
                    forall|jj: int| 0 <= jj < j ==> #[trigger] self.characters@[jj] == (Item {
                        inner: chars0[jj].inner,
                        state: alpha_after(
                            chars0[jj].state,
                            chars0[jj].inner,
                            w,
                            secret,
                            idx as int + 1,
                        ),
                    }),
                    forall|jj: int| j <= jj < chars0.len() ==> #[trigger] self.characters@[jj]
                        == (Item {
                        inner: chars0[jj].inner,
                        state: alpha_after(chars0[jj].state, chars0[jj].inner, w, secret, idx as int),
                    }),
                decreases chars0.len() - j,
            {
                let cur = self.characters[j];
                if cur.inner == c {
                    if rank_of(st) > rank_of(cur.state) {
                        self.characters[j] = Item::new(cur.inner, st);
                    }
                }
                proof {
                    let prev = alpha_after(chars0[j as int].state, chars0[j as int].inner, w, secret, idx as int);
                    assert(alpha_after(chars0[j as int].state, chars0[j as int].inner, w, secret, idx as int + 1)
                        == if w[idx as int] == chars0[j as int].inner {
                            upgrade(prev, score_char(secret, idx as int, chars0[j as int].inner))
                        } else {
                            prev
                        });
                }
                j += 1;
            }
        }

        self.cursor = (row + 1, 0);
        Ok(s)
    }
}

/// Law: scoring only yields terminal statuses. Every cell of a submitted row
/// carries `Right`, `WrongPos` or `Wrong`, never `Untouch` or `Buffer`.
pub proof fn lemma_score_is_terminal(secret: Seq<char>, idx: int, c: char)
    ensures
        score_char(secret, idx, c) == CharacterState::Right
            || score_char(secret, idx, c) == CharacterState::WrongPos
            || score_char(secret, idx, c) == CharacterState::Wrong,
{
}

/// Law: a keyboard entry never regresses. However many positions of a guess
/// are scored into it, the entry's rank only ever grows, so an entry is never
/// replaced by a less informative status.
pub proof fn lemma_alphabet_monotone(
    st: CharacterState,
    c: char,
    guess: Seq<char>,
    secret: Seq<char>,
    n: int,
)
    ensures
        state_rank(alpha_after(st, c, guess, secret, n)) >= state_rank(st),
    decreases n,
{
    if n > 0 {
        lemma_alphabet_monotone(st, c, guess, secret, n - 1);
    }
}

/// Law: once a keyboard entry is `Right`, scoring any further guess leaves it
/// `Right` — `alpha_after` is exactly the update that `enter` applies to each
/// entry, so an entry that reached `Right` keeps it for the rest of the game.
pub proof fn lemma_right_is_permanent(
    st: CharacterState,
    c: char,
    guess: Seq<char>,
    secret: Seq<char>,
    n: int,
)
    requires
        st == CharacterState::Right,
    ensures
        alpha_after(st, c, guess, secret, n) == CharacterState::Right,
    decreases n,
{
    if n > 0 {
        lemma_right_is_permanent(st, c, guess, secret, n - 1);
    }
}

/// The executable counterpart of `state_rank`.
fn rank_of(s: CharacterState) -> (r: u8)
    ensures
        r as int == state_rank(s),
{
    match s {
        CharacterState::Untouch => 0,
        CharacterState::Buffer => 1,
        CharacterState::Wrong => 2,
        CharacterState::WrongPos => 3,
        CharacterState::Right => 4,
    }
}

/// The value of `Item::default()`, for use in contracts.
impl Item {
    pub open spec fn default_spec() -> Item {
        Item { inner: ' ', state: CharacterState::Untouch }
    }
}

/// How informative a status is: feedback entries only ever move up this
/// order, never down.
pub open spec fn state_rank(s: CharacterState) -> int {
    match s {
        CharacterState::Untouch => 0,
        CharacterState::Buffer => 1,
        CharacterState::Wrong => 2,
        CharacterState::WrongPos => 3,
        CharacterState::Right => 4,
    }
}

/// Replaces `cur` by `sc` only when `sc` is strictly more informative.
pub open spec fn upgrade(cur: CharacterState, sc: CharacterState) -> CharacterState {
    if state_rank(sc) > state_rank(cur) {
        sc
    } else {
        cur
    }
}

/// The score of the guessed letter `c` at position `idx`, by membership in
/// the secret word: `Wrong` when the secret nowhere holds `c`, `Right` when
/// the secret holds `c` at `idx` itself, `WrongPos` otherwise. Duplicate
/// letters are not count-limited: every occurrence of a letter the secret
/// holds somewhere scores `Right` or `WrongPos`.
pub open spec fn score_char(secret: Seq<char>, idx: int, c: char) -> CharacterState {
    if !secret.contains(c) {
        CharacterState::Wrong
    } else if secret[idx] == c {
        CharacterState::Right
    } else {
        CharacterState::WrongPos
    }
}

/// The keyboard status of the letter `c`, starting from `st`, after the
/// first `n` positions of `guess` have been scored against `secret`: each
/// position that holds `c` upgrades the entry by its score.
pub open spec fn alpha_after(
    st: CharacterState,
    c: char,
    guess: Seq<char>,
    secret: Seq<char>,
    n: int,
) -> CharacterState
    decreases n,
{
    if n <= 0 {
        st
    } else {
        let prev = alpha_after(st, c, guess, secret, n - 1);
        if guess[n - 1] == c {
            upgrade(prev, score_char(secret, n - 1, c))
        } else {
            prev
        }
    }
}

} // verus!

