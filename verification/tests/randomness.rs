use chicken_core::interactions::Interaction;
use chicken_core::message::{Message, MessageColor};
use chicken_core::rng::{random_slice_index, rng_range, rng_seeded};

#[test]
fn ranged_draws_stay_in_the_half_open_range() {
    let mut rng = rng_seeded(8);
    let mut seen_low = false;
    let mut seen_high = false;
    for _ in 0..1000 {
        let v = rng_range(&mut rng, 1, 5);
        assert!((1..5).contains(&v));
        seen_low |= v == 1;
        seen_high |= v == 4;
    }
    // The range is inclusive below and exclusive above.
    assert!(seen_low && seen_high);
}

#[test]
fn seeded_generators_repeat_their_sequence() {
    let mut a = rng_seeded(99);
    let mut b = rng_seeded(99);
    for _ in 0..50 {
        assert_eq!(rng_range(&mut a, 0, 1000), rng_range(&mut b, 0, 1000));
    }
}

#[test]
fn slice_index_is_none_only_for_empty_slices() {
    let mut rng = rng_seeded(4);
    assert!(random_slice_index(&mut rng, 0).is_none());
    for _ in 0..100 {
        let i = random_slice_index(&mut rng, 3).unwrap();
        assert!(i < 3);
    }
}

#[test]
fn interactions_offer_one_of_their_lines() {
    let mut rng = rng_seeded(12);
    let chatty = Interaction {
        output: vec![
            Message::new("Henry wags his tail", MessageColor::Yellow),
            Message::new("Henry slurps your face", MessageColor::Yellow),
        ],
    };
    for _ in 0..20 {
        let i = chatty.choose_line(&mut rng).unwrap();
        assert!(i < 2);
    }
    let silent = Interaction { output: Vec::new() };
    assert!(silent.choose_line(&mut rng).is_none());
}
