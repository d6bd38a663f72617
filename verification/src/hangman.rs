//! The word-guessing game's rules: picking the secret word and scoring
//! each guessed letter.  The surrounding program owns the prompting and
//! printing; the state here changes only through `guess`.

use vstd::prelude::*;

verus! {

/// How many incorrect guesses a game allows.
pub const NUM_INCORRECT_GUESSES: u32 = 5;

/// The placeholder shown for a letter not yet guessed.
pub const HIDDEN_MARK: char = '-';

/// Relies on rand::Rng::gen_range on the thread-local generator: yields
/// a uniformly random index strictly below `n`; the range must be
/// nonempty, as gen_range panics on an empty range.
#[verifier::external_body]
fn random_index(n: usize) -> (r: usize)
    requires
        n > 0,
    ensures
        r < n,
{
    rand::Rng::gen_range(&mut rand::thread_rng(), 0..n)
}

/// Picks one of the given words at random.
pub fn pick_a_random_word(words: &Vec<String>) -> (r: String)
    requires
        words@.len() > 0,
    ensures
        exists|k: int| 0 <= k < words@.len() && r@ == words@[k]@,
{
    let idx = random_index(words.len());
    let chosen = words[idx].clone();
    proof {
        assert((idx as int) < words@.len() && chosen@ == words@[idx as int]@);
    }
    chosen
}

/// One game in progress.
pub struct HangmanGame {
    /// The secret word's letters.
    pub secret: Vec<char>,
    /// The letters shown so far: the secret letter where guessed, the
    /// hidden mark where not.
    pub revealed: Vec<char>,
    /// Every guessed letter, in the order guessed.
    pub guessed: Vec<char>,
    /// How many guesses missed.
    pub wrong: u32,
}

impl HangmanGame {
    pub open spec fn wf(&self) -> bool {
        &&& self.revealed@.len() == self.secret@.len()
        &&& self.wrong <= NUM_INCORRECT_GUESSES
        &&& forall|i: int|
            0 <= i < self.revealed@.len() ==> self.revealed@[i] == self.secret@[i]
                || self.revealed@[i] == HIDDEN_MARK
    }

    /// A fresh game: nothing revealed, nothing guessed, no misses.
    pub fn new(secret: Vec<char>) -> (r: HangmanGame)
        ensures
            r.wf(),
            r.secret@ == secret@,
            r.guessed@.len() == 0,
            r.wrong == 0,
            forall|i: int| 0 <= i < r.revealed@.len() ==> r.revealed@[i] == HIDDEN_MARK,
    {
        let n = secret.len();
        let mut revealed: Vec<char> = Vec::new();
        let mut k: usize = 0;
        while k < n
            invariant
                k <= n,
                revealed@.len() == k,
                forall|i: int| 0 <= i < k ==> revealed@[i] == HIDDEN_MARK,
            decreases n - k,
        {
            revealed.push(HIDDEN_MARK);
            k += 1;
        }
        HangmanGame { secret, revealed, guessed: Vec::new(), wrong: 0 }
    }

    /// Scores one guessed letter: a hit reveals every position of that
    /// letter and costs nothing, a miss reveals nothing and costs one
    /// of the allowed incorrect guesses.  The letter is recorded either
    /// way.
    pub fn guess(&mut self, c: char) -> (hit: bool)
        requires
            old(self).wf(),
            old(self).wrong < NUM_INCORRECT_GUESSES,
        ensures
            final(self).wf(),
            final(self).secret@ == old(self).secret@,
            final(self).guessed@ == old(self).guessed@.push(c),
            hit == exists|i: int| 0 <= i < old(self).secret@.len() && old(self).secret@[i] == c,
            hit ==> final(self).wrong == old(self).wrong && forall|i: int|
                0 <= i < old(self).secret@.len() ==> final(self).revealed@[i] == (
                if old(self).secret@[i] == c {
                    c
                } else {
                    old(self).revealed@[i]
                }),
            !hit ==> final(self).wrong == old(self).wrong + 1 && final(self).revealed@ == old(
                self,
            ).revealed@,
    {
        self.guessed.push(c);
        let n = self.secret.len();
        let mut hit = false;
        let mut k: usize = 0;
        while k < n
            invariant
                k <= n,
                n == self.secret@.len(),
                self.secret@ == old(self).secret@,
                self.guessed@ == old(self).guessed@.push(c),
                self.wrong == old(self).wrong,
                self.revealed@.len() == old(self).revealed@.len(),
                old(self).wf(),
                self.revealed@.len() == self.secret@.len(),
                hit == exists|i: int| 0 <= i < k && self.secret@[i] == c,
                forall|i: int|
                    0 <= i < k ==> self.revealed@[i] == (if self.secret@[i] == c {
                        c
                    } else {
                        old(self).revealed@[i]
                    }),
                forall|i: int| k <= i < n ==> self.revealed@[i] == old(self).revealed@[i],
            decreases n - k,
        {
            let hit_here = self.secret[k] == c;
            if hit_here {
                self.revealed.set(k, c);
                hit = true;
            }
            proof {
                if hit_here {
                    assert(self.secret@[k as int] == c);
                    assert(exists|i: int| 0 <= i < k + 1 && self.secret@[i] == c);
                } else {
                    assert forall|i: int| 0 <= i < k + 1 && self.secret@[i] == c implies 0 <= i
                        < k && self.secret@[i] == c by {}
                }
            }
            k += 1;
        }
        if !hit {
            self.wrong += 1;
        }
        hit
    }

    /// Whether every letter of the secret word has been revealed.
    pub fn is_won(&self) -> (r: bool)
        requires
            self.wf(),
        ensures
            r == forall|i: int|
                0 <= i < self.revealed@.len() ==> self.revealed@[i] != HIDDEN_MARK,
    {
        let n = self.revealed.len();
        let mut k: usize = 0;
        while k < n
            invariant
                k <= n,
                n == self.revealed@.len(),
                forall|i: int| 0 <= i < k ==> self.revealed@[i] != HIDDEN_MARK,
            decreases n - k,
        {
            if self.revealed[k] == HIDDEN_MARK {
                return false;
            }
            k += 1;
        }
        true
    }

    /// Whether the allowed incorrect guesses are used up.
    pub fn is_lost(&self) -> (r: bool)
        ensures
            r == (self.wrong >= NUM_INCORRECT_GUESSES),
    {
        self.wrong >= NUM_INCORRECT_GUESSES
    }

    /// How many guesses remain before the game is lost.
    pub fn guesses_left(&self) -> (r: u32)
        requires
            self.wf(),
        ensures
            r == NUM_INCORRECT_GUESSES - self.wrong,
    {
        NUM_INCORRECT_GUESSES - self.wrong
    }
}

} // verus!
