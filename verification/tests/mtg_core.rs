//! The card-game simulator: counters, fields, decks and draws.
use rand::rngs::StdRng;
use rand::Rng;
use rand::SeedableRng;
use ray_tracer_challenge::mtg::{
    cumulative_sum, make_deck, sample_categorical_at, Card, Field, FixedCounter, ManaSpend,
    Problem, SmallestK, Termination,
};

fn assert_eq_ct(a: &FixedCounter, b: &FixedCounter) {
    let mut keys: Vec<Card> = a.items.clone();
    for k in &b.items {
        if !keys.contains(k) {
            keys.push(*k);
        }
    }
    for key in keys {
        let ca = match a.get_entry(&key) {
            Some(e) => a.count_of(&e),
            None => 0,
        };
        let cb = match b.get_entry(&key) {
            Some(e) => b.count_of(&e),
            None => 0,
        };
        assert_eq!(ca, cb, "Testing for {key:?}");
    }
}

#[test]
fn test_cumulative_sum() {
    assert_eq!(cumulative_sum(&vec![1, 4, 2, 5]), vec![1, 5, 7, 12])
}

#[test]
fn test_smallest_k() {
    let mut s = SmallestK::new(3);
    s.push(3, 3);
    s.push(-1, -1);
    let mut v: Vec<i32> = s.items();
    v.sort_unstable();
    assert_eq!(v, vec![-1, 3]);

    s.push(2, 2);
    let mut v: Vec<i32> = s.items();
    v.sort_unstable();
    assert_eq!(v, vec![-1, 2, 3]);

    // ejects non-smallest, maintains size
    s.push(1, 1);
    let mut v: Vec<i32> = s.items();
    v.sort_unstable();
    assert_eq!(v, vec![-1, 1, 2]);

    // ignores if not smaller, maintains size
    s.push(10, 10);
    let mut v: Vec<i32> = s.items();
    v.sort_unstable();
    assert_eq!(v, vec![-1, 1, 2]);
}

#[test]
fn test_field() {
    let c1 = Card::simple_summon(1, 1);
    let c2 = Card::simple_summon(2, 2);
    let l = Card::Land;
    let deck = FixedCounter::from(&[(l, 40), (c1, 20), (c2, 0)]);
    assert_eq!(deck.total(), 60);
    let mut field = Field::new(deck);
    let mut r = StdRng::seed_from_u64(3667);

    let hl = field.hand.get_entry(&l).unwrap();
    let h1 = field.hand.get_entry(&c1).unwrap();
    let h2 = field.hand.get_entry(&c2).unwrap();
    field.hand.inc(&hl, 3);
    field.hand.inc(&h1, 2);
    field.hand.inc(&h2, 2);

    assert_eq!(field.hand.total(), 7);
    field.begin(&mut r);
    assert_eq!(field.tapped.total(), 0);
    assert_eq!(field.untapped.total(), 0);
    field.play_card(l);
    assert_eq!(field.tapped.total(), 0);
    assert_eq_ct(&field.untapped, &FixedCounter::from(&[(l, 1)]));
    field.play_card_while_possible(c1);
    assert_eq_ct(&field.tapped, &FixedCounter::from(&[(l, 1), (c1, 1)]));
    assert_eq!(field.untapped.total(), 0);

    assert_eq!(field.hand.total(), 6);
    field.begin(&mut r);
    assert_eq!(field.tapped.total(), 0);
    assert_eq_ct(&field.untapped, &FixedCounter::from(&[(l, 1), (c1, 1)]));
    field.play_card(l);
    assert_eq!(field.tapped.total(), 0);
    assert_eq_ct(&field.untapped, &FixedCounter::from(&[(l, 2), (c1, 1)]));
    field.play_card_while_possible(c2);
    field.play_card_while_possible(c1);
    assert_eq_ct(&field.tapped, &FixedCounter::from(&[(l, 2), (c2, 1)]));
    assert_eq_ct(&field.untapped, &FixedCounter::from(&[(c1, 1), (l, 0)]));

    assert_eq!(field.played_stats().power, 3);

    assert_eq!(field.hand.total(), 5);
    field.begin(&mut r);
    field.play_card(l);
    field.play_card_while_possible(c2);
    field.play_card_while_possible(c1);
    assert_eq_ct(&field.tapped, &FixedCounter::from(&[(l, 3), (c1, 1), (c2, 1)]));
    assert_eq_ct(&field.untapped, &FixedCounter::from(&[(l, 0), (c1, 1), (c2, 1)]));

    assert_eq!(field.played_stats().power, 6);

    assert_eq!(field.hand.total(), 3);
}

#[test]
fn test_mana_spend() {
    let cards = [
        Card::simple_summon(1, 1),
        Card::simple_summon(1, 1),
        Card::Land,
        Card::simple_summon(2, 2),
        Card::simple_summon(3, 3),
    ];
    let counts = [2, 6, 1, 2, 2];
    let p = Problem::new(&cards, &counts, 4);

    // Listens to counts
    let s0: ManaSpend = p.initial_state();
    assert_eq!(p.actions(&s0), (0, 2));

    // Listens to total
    let (s1, _) = p.next_state(&s0, 0);
    assert_eq!(p.actions(&s1), (0, 4));

    // Ignore lands
    let (s2, _) = p.next_state(&s1, 0);
    assert_eq!(p.actions(&s2), (0, 0));

    let (s3, _) = p.next_state(&s2, 0);
    assert_eq!(p.actions(&s3), (0, 2));

    // not evenly divisible
    let (s4, _) = p.next_state(&s3, 0);
    assert_eq!(p.actions(&s4), (0, 1));

    // end
    let (s5, _) = p.next_state(&s4, 0);
    assert_eq!(p.actions(&s5), (1, 0));

    // rewinding. actions should depend on what's left to fill
    let (s1, _) = p.next_state(&s0, 2);
    assert_eq!(s1.spend, 2);
    assert_eq!(p.actions(&s1), (0, 2));

    // If all spent, automatic 0
    let (s2, _) = p.next_state(&s1, 2);
    assert_eq!(s2.spend, 4);
    assert_eq!(p.actions(&s2), (0, 0));
}

#[test]
fn test_sample_categorical_buckets() {
    // The bucket boundaries of the weighted pick, exactly.
    assert_eq!(sample_categorical_at(&[5, 2, 1, 2], 0), 0);
    assert_eq!(sample_categorical_at(&[5, 2, 1, 2], 4), 0);
    assert_eq!(sample_categorical_at(&[5, 2, 1, 2], 5), 1);
    assert_eq!(sample_categorical_at(&[5, 2, 1, 2], 6), 1);
    assert_eq!(sample_categorical_at(&[5, 2, 1, 2], 7), 2);
    assert_eq!(sample_categorical_at(&[5, 2, 1, 2], 8), 3);
    assert_eq!(sample_categorical_at(&[5, 2, 1, 2], 9), 3);
    // A zero-weight bucket is never picked.
    assert_eq!(sample_categorical_at(&[0, 3], 0), 1);
}

#[test]
fn test_draws_move_cards() {
    // A draw takes one card from the deck into the hand; the generator
    // only picks which card, never how many.
    let deck = FixedCounter::from(&[(Card::Land, 40), (Card::simple_summon(1, 1), 20)]);
    let mut field = Field::new(deck);
    let mut r = StdRng::seed_from_u64(42);
    assert_eq!(field.deck.total(), 60);
    field.init(&mut r);
    assert_eq!(field.deck.total(), 53);
    assert_eq!(field.hand.total(), 7);
    let before = field.deck.total();
    let e = field.draw_card(&mut r);
    assert_eq!(field.deck.total(), before - 1);
    assert!(e.index < 2);
}

#[test]
fn test_make_deck_totals() {
    for name in ["mono", "mono2", "pow1", "ramp"] {
        let deck = make_deck(name, 24);
        assert_eq!(deck.total(), 60);
    }
    // pow1 splits exactly between lands and one-drops.
    let d = make_deck("pow1", 24);
    let land = d.get_entry(&Card::Land).unwrap();
    assert_eq!(d.count_of(&land), 24);
}

#[test]
fn test_termination_is_done() {
    let deck = FixedCounter::from(&[(Card::Land, 60)]);
    let mut field = Field::new(deck);
    assert!(!Termination::Turns(1).is_done(&field));
    field.end();
    assert!(Termination::Turns(1).is_done(&field));
    assert!(!Termination::Damage(1).is_done(&field));
}
