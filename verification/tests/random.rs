use codenames::random::RandomSource;

#[test]
fn index_below_stays_below_the_bound() {
    let mut rng = RandomSource::from_seed(1);
    let mut seen = [false; 5];
    for _ in 0..500 {
        let drawn = rng.index_below(5);
        assert!(drawn < 5);
        seen[drawn] = true;
    }
    assert_eq!(seen, [true; 5]);
    for _ in 0..20 {
        assert_eq!(rng.index_below(1), 0);
    }
}

#[test]
fn pick_takes_a_word_of_the_list() {
    let mut rng = RandomSource::from_seed(2);
    let words = vec![String::from("apple"), String::from("bridge")];
    let mut apples = 0;
    let mut bridges = 0;
    for _ in 0..200 {
        let word = rng.pick(&words).unwrap();
        if word == "apple" {
            apples += 1;
        } else {
            assert_eq!(word, "bridge");
            bridges += 1;
        }
    }
    assert!(apples > 0);
    assert!(bridges > 0);
    assert_eq!(rng.pick(&Vec::new()), None);
}

#[test]
fn equal_seeds_give_equal_draws() {
    let mut first = RandomSource::from_seed(42);
    let mut second = RandomSource::from_seed(42);
    let mut other = RandomSource::from_seed(43);
    let mut differs = false;
    for _ in 0..10 {
        let id = first.identifier();
        assert_eq!(id, second.identifier());
        if id != other.identifier() {
            differs = true;
        }
    }
    assert!(differs);
}

#[test]
fn sources_of_entropy_differ() {
    let first = RandomSource::from_entropy();
    let second = RandomSource::from_entropy();
    if let (Some(mut first), Some(mut second)) = (first, second) {
        let a = (first.identifier(), first.identifier());
        let b = (second.identifier(), second.identifier());
        assert_ne!(a, b);
    }
}
