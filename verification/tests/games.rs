use events_to_lua::duck::{exchange, fight, Duck};
use events_to_lua::simon::{choose_random_letter, is_correct, letter_at, Game, ALPHABET};

#[test]
fn a_new_duck_has_what_it_was_given() {
    let duck = Duck::new(100, 10, 1, "Jeremy");
    assert_eq!(duck.health, 100);
    assert_eq!(duck.happiness, 10);
    assert_eq!(duck.power, 1);
    assert_eq!(duck.name, "Jeremy");
    assert!(!duck.is_dead());
}

#[test]
fn damage_comes_off_the_health() {
    let mut duck = Duck::new(100, 10, 1, "Henry");
    duck.take_damage(30);
    assert_eq!(duck.health, 70);
    duck.take_damage(70);
    assert_eq!(duck.health, 0);
    assert!(duck.is_dead());
    duck.take_damage(5);
    assert_eq!(duck.health, -5);
    assert!(duck.is_dead());
    duck.take_damage(-6);
    assert_eq!(duck.health, 1);
    assert!(!duck.is_dead());
}

#[test]
fn a_hit_takes_power_and_bonus() {
    let one = Duck::new(100, 10, 3, "Jeremy");
    let mut two = Duck::new(50, 0, 1, "Henry");
    assert_eq!(one.hit(&mut two, 4), 7);
    assert_eq!(two.health, 43);
    assert_eq!(one.hit(&mut two, 0), 3);
    assert_eq!(two.health, 40);
    assert_eq!(two.name, "Henry");
    assert_eq!(one.hit(&mut two, 20), 23);
    assert_eq!(two.health, 17);
    assert_eq!(one.hit(&mut two, -3), 0);
    assert_eq!(two.health, 17);
}

#[test]
fn can_attack_tells_whether_a_hit_fits() {
    let one = Duck::new(100, 10, 1, "Jeremy");
    let two = Duck::new(100, 10, 1, "Henry");
    assert!(one.can_attack(&two));
    assert!(!Duck::new(100, -1, 1, "Jeremy").can_attack(&two));
    assert!(!Duck::new(100, i32::MAX, 1, "Jeremy").can_attack(&two));
    assert!(!Duck::new(100, 10, i32::MAX, "Jeremy").can_attack(&two));
    assert!(!one.can_attack(&Duck::new(i32::MIN, 10, 1, "Henry")));
    assert!(one.can_attack(&Duck::new(i32::MIN + 11, 10, 1, "Henry")));
    assert!(!Duck::new(100, 0, -1, "Jeremy").can_attack(&Duck::new(i32::MAX, 10, 1, "Henry")));
}

#[test]
fn an_attack_adds_up_to_the_happiness() {
    let one = Duck::new(100, 10, 1, "Jeremy");
    for _ in 0..200 {
        let mut two = Duck::new(100, 10, 1, "Henry");
        let damage = one.attack(&mut two);
        assert!(1 <= damage && damage <= 11);
        assert_eq!(two.health, 100 - damage);
    }
    let sad = Duck::new(100, 0, 5, "Henry");
    let mut other = Duck::new(100, 10, 1, "Jeremy");
    assert_eq!(sad.attack(&mut other), 5);
    assert_eq!(other.health, 95);
}

#[test]
fn an_exchange_stops_at_a_knock_out() {
    let mut strong = Duck::new(100, 0, 50, "Jeremy");
    let mut weak = Duck::new(40, 0, 7, "Henry");
    assert_eq!(exchange(&mut strong, &mut weak), (50, None, true));
    assert_eq!(strong.health, 100);
    assert_eq!(weak.health, -10);
    let mut one = Duck::new(5, 0, 2, "Jeremy");
    let mut two = Duck::new(40, 0, 7, "Henry");
    assert_eq!(exchange(&mut one, &mut two), (2, Some(7), true));
    assert_eq!(one.health, -2);
    assert_eq!(two.health, 38);
    let mut one = Duck::new(50, 0, 2, "Jeremy");
    let mut two = Duck::new(40, 0, 7, "Henry");
    assert_eq!(exchange(&mut one, &mut two), (2, Some(7), false));
    assert_eq!(one.health, 43);
    assert_eq!(two.health, 38);
}

#[test]
fn a_round_is_an_exchange_in_one_order_or_the_other() {
    let mut seen_one_first = false;
    let mut seen_two_first = false;
    for _ in 0..200 {
        let mut one = Duck::new(100, 10, 1, "Jeremy");
        let mut two = Duck::new(100, 10, 1, "Henry");
        let round = fight(&mut one, &mut two);
        let back = round.second_damage.unwrap();
        assert!(1 <= round.first_damage && round.first_damage <= 11);
        assert!(1 <= back && back <= 11);
        assert!(!round.over);
        if round.one_first {
            seen_one_first = true;
            assert_eq!(two.health, 100 - round.first_damage);
            assert_eq!(one.health, 100 - back);
        } else {
            seen_two_first = true;
            assert_eq!(one.health, 100 - round.first_damage);
            assert_eq!(two.health, 100 - back);
        }
    }
    assert!(seen_one_first && seen_two_first);
}

#[test]
fn a_round_ends_the_fight_when_a_duck_is_knocked_out() {
    let mut one = Duck::new(1, 0, 1, "Jeremy");
    let mut two = Duck::new(1, 0, 1, "Henry");
    let round = fight(&mut one, &mut two);
    assert!(round.over);
    assert_eq!(round.first_damage, 1);
    assert_eq!(round.second_damage, None);
    if round.one_first {
        assert_eq!((one.health, two.health), (1, 0));
    } else {
        assert_eq!((one.health, two.health), (0, 1));
    }
}

#[test]
fn letters_come_from_the_alphabet() {
    assert_eq!(ALPHABET.len(), 62);
    assert_eq!(letter_at(0), 'a');
    assert_eq!(letter_at(25), 'z');
    assert_eq!(letter_at(26), 'A');
    assert_eq!(letter_at(52), '0');
    assert_eq!(letter_at(61), '9');
    let mut seen = std::collections::HashSet::new();
    for _ in 0..2000 {
        let letter = choose_random_letter();
        assert!(ALPHABET.contains(letter));
        seen.insert(letter);
    }
    assert!(seen.len() > 1);
}

#[test]
fn a_guess_is_correct_when_it_is_the_phrase() {
    assert!(is_correct("aB3", "aB3"));
    assert!(!is_correct("aB3", "ab3"));
    assert!(!is_correct("aB3", "aB"));
    assert!(is_correct("", ""));
}

#[test]
fn a_game_grows_letter_by_letter() {
    let mut game = Game::new();
    assert_eq!(game.phrase, "");
    assert_eq!(game.score, 0);
    game.grow_by(0);
    game.grow_by(26);
    game.grow_by(61);
    assert_eq!(game.phrase, "aA9");
    assert_eq!(game.score, 0);
    game.grow();
    assert_eq!(game.phrase.len(), 4);
    assert!(game.phrase.starts_with("aA9"));
    assert!(ALPHABET.contains(game.phrase.chars().last().unwrap()));
}

#[test]
fn a_correct_answer_earns_a_point_for_each_letter() {
    let mut game = Game::new();
    game.grow_by(1);
    assert!(game.answer("b"));
    assert_eq!(game.score, 1);
    game.grow_by(2);
    assert!(game.answer("bc"));
    assert_eq!(game.score, 3);
    game.grow_by(3);
    assert!(!game.answer("bcD"));
    assert_eq!(game.score, 3);
    assert_eq!(game.phrase, "bcd");
    assert!(game.answer("bcd"));
    assert_eq!(game.score, 6);
}
