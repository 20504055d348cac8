use asteroids::rocks::AsteroidSize;

#[test]
fn asteroid_progression_is_correct() {
    assert!(matches!(
        AsteroidSize::Large.child(),
        Some(AsteroidSize::Medium)
    ));
    assert!(matches!(
        AsteroidSize::Medium.child(),
        Some(AsteroidSize::Small)
    ));
    assert!(AsteroidSize::Small.child().is_none());
}

#[test]
fn radii_and_scores_per_size() {
    assert_eq!(AsteroidSize::Large.radius(), 47);
    assert_eq!(AsteroidSize::Medium.radius(), 28);
    assert_eq!(AsteroidSize::Small.radius(), 16);
    assert_eq!(AsteroidSize::Large.score(), 20);
    assert_eq!(AsteroidSize::Medium.score(), 50);
    assert_eq!(AsteroidSize::Small.score(), 100);
}

#[test]
fn fragments_are_smaller_and_worth_more() {
    for size in [AsteroidSize::Large, AsteroidSize::Medium, AsteroidSize::Small] {
        if let Some(child) = size.child() {
            assert!(child.radius() < size.radius());
            assert!(child.score() > size.score());
        }
    }
}

#[test]
fn a_large_asteroid_splits_at_most_twice() {
    let mut size = AsteroidSize::Large;
    let mut splits = 0;
    while let Some(child) = size.child() {
        size = child;
        splits += 1;
    }
    assert_eq!(splits, 2);
    assert_eq!(size, AsteroidSize::Small);
}
