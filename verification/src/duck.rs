//! Duck fight: two ducks take turns at hitting each other until one of them
//! is knocked out.

use vstd::prelude::*;
use vstd::string::*;
use crate::chance::random_in;

verus! {

/// A duck that fights.
#[derive(Debug)]
pub struct Duck {
    /// What is left of the duck's health. At zero or less it is knocked out.
    pub health: i32,
    /// How happy the duck is. A hit gets up to so many points on top.
    pub happiness: i32,
    /// The points that every hit of the duck takes.
    pub power: i32,
    pub name: String,
}

/// What happened in one round.
#[derive(Clone, Copy, Debug, PartialEq, Eq, Structural)]
pub struct Round {
    /// Whether the first duck hit first.
    pub one_first: bool,
    /// The damage of the first hit.
    pub first_damage: i32,
    /// The damage of the hit back; none where the first hit ended the fight.
    pub second_damage: Option<i32>,
    /// Whether the fight is over.
    pub over: bool,
}

impl Duck {
    /// Whether a hit of this duck on `other` can be counted in 32 bits,
    /// whatever its happiness adds.
    pub open spec fn can_hit(&self, other: &Duck) -> bool {
        &&& 0 <= self.happiness < i32::MAX
        &&& self.power + self.happiness <= i32::MAX
        &&& other.health - self.power <= i32::MAX
        &&& other.health - (self.power + self.happiness) >= i32::MIN
    }

    /// Whether the duck is `other` but for its health.
    pub open spec fn same_duck(&self, other: &Duck) -> bool {
        &&& self.happiness == other.happiness
        &&& self.power == other.power
        &&& self.name@ == other.name@
    }

    pub fn new(hp: i32, h: i32, p: i32, n: &str) -> (duck: Duck)
        ensures
            duck.health == hp,
            duck.happiness == h,
            duck.power == p,
            duck.name@ == n@,
    {
        Duck { health: hp, happiness: h, power: p, name: String::from_str(n) }
    }

    /// Takes `damage` off the duck's health.
    pub fn take_damage(&mut self, damage: i32)
        requires
            i32::MIN <= old(self).health - damage <= i32::MAX,
        ensures
            final(self).health == old(self).health - damage,
            final(self).same_duck(old(self)),
    {
        self.health = self.health - damage;
    }

    /// Whether a hit of this duck on `other` can be counted in 32 bits,
    /// whatever its happiness adds.
    pub fn can_attack(&self, other: &Duck) -> (ok: bool)
        ensures
            ok == self.can_hit(other),
    {
        let power = self.power as i64;
        let happiness = self.happiness as i64;
        let health = other.health as i64;
        0 <= happiness && happiness < i32::MAX as i64 && power + happiness <= i32::MAX as i64
            && health - power <= i32::MAX as i64 && health - (power + happiness) >= i32::MIN
            as i64
    }

    /// Hits `other` with the duck's power and `bonus` on top, and returns
    /// the damage done.
    pub fn hit(&self, other: &mut Duck, bonus: i32) -> (damage: i32)
        requires
            i32::MIN <= self.power + bonus <= i32::MAX,
            i32::MIN <= old(other).health - (self.power + bonus) <= i32::MAX,
        ensures
            damage == self.power + bonus,
            final(other).health == old(other).health - damage,
            final(other).same_duck(old(other)),
    {
        let damage = self.power + bonus;
        other.take_damage(damage);
        damage
    }

    /// Hits `other`. Chance adds to the duck's power anything from nothing
    /// to its happiness. Returns the damage done.
    pub fn attack(&self, other: &mut Duck) -> (damage: i32)
        requires
            self.can_hit(old(other)),
        ensures
            self.power <= damage <= self.power + self.happiness,
            final(other).health == old(other).health - damage,
            final(other).same_duck(old(other)),
    {
        let bonus = random_in(0, self.happiness + 1);
        self.hit(other, bonus)
    }

    /// Whether the duck is knocked out.
    pub fn is_dead(&self) -> (dead: bool)
        ensures
            dead == (self.health <= 0),
    {
        self.health <= 0
    }
}

/// One duck hits, and the other hits back if it still stands. Returns the
/// damage of the hit, the damage of the hit back if there was one, and
/// whether a duck is knocked out.
pub fn exchange(first: &mut Duck, second: &mut Duck) -> (outcome: (i32, Option<i32>, bool))
    requires
        old(first).can_hit(old(second)),
        old(second).can_hit(old(first)),
    ensures
        final(first).same_duck(old(first)),
        final(second).same_duck(old(second)),
        old(first).power <= outcome.0 <= old(first).power + old(first).happiness,
        final(second).health == old(second).health - outcome.0,
        outcome.1 is None <==> final(second).health <= 0,
        outcome.1 is None ==> final(first).health == old(first).health,
        outcome.1 matches Some(back) ==> old(second).power <= back <= old(second).power + old(
            second,
        ).happiness && final(first).health == old(first).health - back,
        outcome.2 == (final(second).health <= 0 || (outcome.1 is Some && final(first).health
            <= 0)),
{
    let damage = first.attack(second);
    if second.is_dead() {
        (damage, None, true)
    } else {
        let back = second.attack(first);
        (damage, Some(back), first.is_dead())
    }
}

/// Plays one round: a coin says which duck hits first, then the other hits
/// back if it still stands. The round ends the fight when a duck is
/// knocked out by a hit of this round.
pub fn fight(duck_one: &mut Duck, duck_two: &mut Duck) -> (round: Round)
    requires
        old(duck_one).can_hit(old(duck_two)),
        old(duck_two).can_hit(old(duck_one)),
    ensures
        final(duck_one).same_duck(old(duck_one)),
        final(duck_two).same_duck(old(duck_two)),
        ({
            let first = if round.one_first { *old(duck_one) } else { *old(duck_two) };
            let second = if round.one_first { *old(duck_two) } else { *old(duck_one) };
            let first_after = if round.one_first { *final(duck_one) } else { *final(duck_two) };
            let second_after = if round.one_first { *final(duck_two) } else { *final(duck_one) };
            &&& first.power <= round.first_damage <= first.power + first.happiness
            &&& second_after.health == second.health - round.first_damage
            &&& round.second_damage is None <==> second_after.health <= 0
            &&& round.second_damage is None ==> first_after.health == first.health
            &&& round.second_damage matches Some(back) ==> second.power <= back <= second.power
                + second.happiness && first_after.health == first.health - back
            &&& round.over == (second_after.health <= 0 || (round.second_damage is Some
                && first_after.health <= 0))
        }),
{
    let coin = random_in(0, 2);
    if coin == 0 {
        let outcome = exchange(duck_one, duck_two);
        Round { one_first: true, first_damage: outcome.0, second_damage: outcome.1, over: outcome.2 }
    } else {
        let outcome = exchange(duck_two, duck_one);
        Round {
            one_first: false,
            first_damage: outcome.0,
            second_damage: outcome.1,
            over: outcome.2,
        }
    }
}

} // verus!
