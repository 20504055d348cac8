use asteroids::rocks::AsteroidSize;
use asteroids::session::Game;
use asteroids::volley::{Contact, Hit, Rock};

const NONE: Contact = Contact { large: false, medium: false, small: false };
const ALL: Contact = Contact { large: true, medium: true, small: true };

fn rock(size: AsteroidSize, origin: usize, id: usize) -> Rock {
    Rock { size, origin, id }
}

#[test]
fn last_bullet_goes_first_and_large_asteroids_split() {
    let mut g = Game::new();
    g.start();
    let rocks = vec![rock(AsteroidSize::Large, 0, 0), rock(AsteroidSize::Small, 1, 1)];
    let contacts = vec![
        vec![Contact { large: true, medium: true, small: false }, NONE],
        vec![NONE, ALL],
    ];
    let v = g.handle_bullet_collisions(2, rocks, &contacts);
    assert_eq!(
        v.hits,
        vec![
            Hit { bullet: 1, rock: rock(AsteroidSize::Small, 1, 1) },
            Hit { bullet: 0, rock: rock(AsteroidSize::Large, 0, 0) },
        ]
    );
    assert_eq!(v.bullets, Vec::<usize>::new());
    assert_eq!(
        v.rocks,
        vec![rock(AsteroidSize::Medium, 0, 2), rock(AsteroidSize::Medium, 0, 3)]
    );
    assert_eq!(g.score, 120);
    assert_eq!(g.high_score, 120);
}

#[test]
fn swap_remove_order_and_first_touch_win() {
    let mut g = Game::new();
    g.start();
    g.high_score = 500;
    let rocks = vec![
        rock(AsteroidSize::Large, 0, 0),
        rock(AsteroidSize::Medium, 1, 1),
        rock(AsteroidSize::Small, 2, 2),
    ];
    let contacts = vec![
        vec![NONE, ALL, ALL],
        vec![NONE, NONE, NONE],
        vec![NONE, ALL, NONE],
    ];
    let v = g.handle_bullet_collisions(3, rocks, &contacts);
    assert_eq!(
        v.hits,
        vec![
            Hit { bullet: 2, rock: rock(AsteroidSize::Medium, 1, 1) },
            Hit { bullet: 0, rock: rock(AsteroidSize::Small, 2, 2) },
        ]
    );
    assert_eq!(v.bullets, vec![1]);
    assert_eq!(
        v.rocks,
        vec![
            rock(AsteroidSize::Large, 0, 0),
            rock(AsteroidSize::Small, 1, 4),
            rock(AsteroidSize::Small, 1, 3),
        ]
    );
    assert_eq!(g.score, 150);
    assert_eq!(g.high_score, 500);
}

#[test]
fn fragments_can_be_hit_by_later_bullets() {
    let mut g = Game::new();
    g.start();
    let rocks = vec![rock(AsteroidSize::Large, 0, 0)];
    let contacts = vec![vec![ALL], vec![ALL]];
    let v = g.handle_bullet_collisions(2, rocks, &contacts);
    assert_eq!(
        v.hits,
        vec![
            Hit { bullet: 1, rock: rock(AsteroidSize::Large, 0, 0) },
            Hit { bullet: 0, rock: rock(AsteroidSize::Medium, 0, 1) },
        ]
    );
    assert_eq!(
        v.rocks,
        vec![
            rock(AsteroidSize::Medium, 0, 2),
            rock(AsteroidSize::Small, 0, 3),
            rock(AsteroidSize::Small, 0, 4),
        ]
    );
    assert_eq!(g.score, 70);
}

#[test]
fn no_contact_changes_nothing() {
    let mut g = Game::new();
    g.start();
    let rocks = vec![rock(AsteroidSize::Large, 0, 0), rock(AsteroidSize::Medium, 1, 1)];
    let contacts = vec![vec![NONE, NONE]; 3];
    let v = g.handle_bullet_collisions(3, rocks.clone(), &contacts);
    assert!(v.hits.is_empty());
    assert_eq!(v.bullets, vec![0, 1, 2]);
    assert_eq!(v.rocks, rocks);
    assert_eq!(g.score, 0);
}

#[test]
fn volley_bookkeeping_on_a_crowded_field() {
    let mut g = Game::new();
    g.start();
    g.score = 40;
    g.high_score = 40;
    let sizes = [AsteroidSize::Large, AsteroidSize::Medium, AsteroidSize::Small];
    let rocks: Vec<Rock> = (0..6).map(|i| rock(sizes[i % 3], i, i)).collect();
    let contacts: Vec<Vec<Contact>> = (0..5)
        .map(|b| {
            (0..6)
                .map(|p| Contact { large: (b + p) % 2 == 0, medium: (b * p) % 3 == 1, small: p == b })
                .collect()
        })
        .collect();
    let v = g.handle_bullet_collisions(5, rocks, &contacts);
    assert_eq!(v.bullets.len() + v.hits.len(), 5);
    let points: u32 = v.hits.iter().map(|h| h.rock.size.score()).sum();
    assert_eq!(g.score, 40 + points);
    assert_eq!(g.high_score, g.score);
    let splits = v.hits.iter().filter(|h| h.rock.size.child().is_some()).count();
    assert_eq!(v.rocks.len() + v.hits.len(), 6 + 2 * splits);
    let mut seen: Vec<usize> = v.bullets.clone();
    seen.extend(v.hits.iter().map(|h| h.bullet));
    seen.sort();
    assert_eq!(seen, vec![0, 1, 2, 3, 4]);
    for h in &v.hits {
        let c = contacts[h.bullet][h.rock.origin];
        assert!(c.touches(h.rock.size));
    }
}
