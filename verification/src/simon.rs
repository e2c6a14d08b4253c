//! Simon says: a phrase that grows by one random letter each round, and a
//! player who has to type it back.

use vstd::prelude::*;
use vstd::string::*;
use crate::chance::random_in;
use crate::text::str_eq;

verus! {

/// The letters and digits that a phrase is made of.
pub const ALPHABET: &'static str = "abcdefghijklmnopqrstuvwxyzABCDEFGHIJKLMNOPQRSTUVWXYZ0123456789";

/// The character of the alphabet at `index`.
pub fn letter_at(index: usize) -> (letter: char)
    requires
        index < 62,
    ensures
        ALPHABET@.len() == 62,
        letter == ALPHABET@[index as int],
{
    proof {
        reveal_strlit("abcdefghijklmnopqrstuvwxyzABCDEFGHIJKLMNOPQRSTUVWXYZ0123456789");
    }
    ALPHABET.get_char(index)
}

/// Picks one character of the alphabet by chance.
pub fn choose_random_letter() -> (letter: char)
    ensures
        exists|i: int| 0 <= i < 62 && letter == ALPHABET@[i],
{
    let num = random_in(0, 62);
    letter_at(num as usize)
}

/// Whether the player typed the phrase.
pub fn is_correct(phrase_one: &str, phrase_two: &str) -> (correct: bool)
    ensures
        correct == (phrase_one@ == phrase_two@),
{
    str_eq(phrase_one, phrase_two)
}

/// A game in progress: the phrase so far, and the points of the player.
#[derive(Debug)]
pub struct Game {
    pub phrase: String,
    pub score: usize,
}

impl Game {
    /// A game before its first round: no phrase yet, and no points.
    pub fn new() -> (game: Game)
        ensures
            game.phrase@ == Seq::<char>::empty(),
            game.score == 0,
    {
        Game { phrase: String::new(), score: 0 }
    }

    /// Puts the letter at `index` of the alphabet at the end of the phrase.
    pub fn grow_by(&mut self, index: usize)
        requires
            index < 62,
        ensures
            final(self).phrase@ == old(self).phrase@.push(ALPHABET@[index as int]),
            final(self).score == old(self).score,
    {
        proof {
            reveal_strlit("abcdefghijklmnopqrstuvwxyzABCDEFGHIJKLMNOPQRSTUVWXYZ0123456789");
        }
        let letter = ALPHABET.substring_char(index, index + 1);
        assert(letter@ =~= seq![ALPHABET@[index as int]]);
        self.phrase.append(letter);
        assert(self.phrase@ =~= old(self).phrase@.push(ALPHABET@[index as int]));
    }

    /// Begins a round: puts one letter, picked by chance, at the end of the
    /// phrase.
    pub fn grow(&mut self)
        ensures
            exists|i: int|
                0 <= i < 62 && final(self).phrase@ == old(self).phrase@.push(
                    #[trigger] ALPHABET@[i],
                ),
            final(self).score == old(self).score,
    {
        let num = random_in(0, 62);
        self.grow_by(num as usize);
        assert(self.phrase@ == old(self).phrase@.push(ALPHABET@[num as int]));
    }

    /// Ends a round with what the player typed. A correct answer earns a
    /// point for each letter of the phrase; a wrong one ends the game.
    pub fn answer(&mut self, guess: &str) -> (correct: bool)
        requires
            guess@ == old(self).phrase@ ==> old(self).score + old(self).phrase@.len()
                <= usize::MAX,
        ensures
            correct == (guess@ == old(self).phrase@),
            final(self).phrase@ == old(self).phrase@,
            final(self).score == if correct {
                old(self).score + old(self).phrase@.len()
            } else {
                old(self).score as int
            },
    {
        let correct = is_correct(self.phrase.as_str(), guess);
        if correct {
            self.score = self.score + self.phrase.as_str().unicode_len();
        }
        correct
    }
}

} // verus!
