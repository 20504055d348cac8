use asteroids::session::{
    may_fire, turn_direction, FrameAction, Game, Screen, ShipFate, MAX_BULLETS, START_LIVES,
};

#[test]
fn new_game_is_on_the_title_screen() {
    let g = Game::new();
    assert_eq!(g.screen, Screen::Title);
    assert_eq!(g.score, 0);
    assert_eq!(g.high_score, 0);
    assert_eq!(g.lives, 3);
    assert_eq!(g.wave, 0);
}

#[test]
fn start_key_on_title_starts_a_game() {
    let mut g = Game::new();
    assert_eq!(g.update(false, false), FrameAction::AnimateParticles);
    assert_eq!(g.screen, Screen::Title);
    assert_eq!(g.update(true, false), FrameAction::Restart);
    assert_eq!(g.screen, Screen::Playing);
}

#[test]
fn pause_and_resume_round_trip() {
    let mut g = Game::new();
    g.start();
    g.score = 340;
    g.high_score = 900;
    g.wave = 4;
    let before = g;
    assert_eq!(g.update(false, true), FrameAction::Freeze);
    assert_eq!(g.screen, Screen::Paused);
    assert_eq!(g.update(true, false), FrameAction::Freeze);
    assert_eq!(g.screen, Screen::Paused);
    assert_eq!(g.update(false, true), FrameAction::Freeze);
    assert_eq!(g, before);
    assert_eq!(g.update(false, false), FrameAction::RunWorld);
    assert_eq!(g, before);
}

#[test]
fn start_keeps_the_high_score() {
    let mut g = Game { screen: Screen::GameOver, score: 750, high_score: 1200, lives: 0, wave: 6 };
    assert_eq!(g.update(true, false), FrameAction::Restart);
    assert_eq!(
        g,
        Game { screen: Screen::Playing, score: 0, high_score: 1200, lives: START_LIVES, wave: 0 }
    );
}

#[test]
fn waves_grow_then_level_off() {
    let mut g = Game::new();
    g.start();
    let counts: Vec<usize> = (0..10).map(|_| g.next_wave()).collect();
    assert_eq!(counts, vec![4, 5, 6, 7, 8, 9, 10, 10, 10, 10]);
    assert_eq!(g.wave, 10);
}

#[test]
fn ship_loses_lives_until_game_over() {
    let mut g = Game::new();
    g.start();
    assert_eq!(g.handle_ship_collision(true, true), ShipFate::Unharmed);
    assert_eq!(g.handle_ship_collision(false, false), ShipFate::Unharmed);
    assert_eq!(g.lives, 3);
    assert_eq!(g.handle_ship_collision(false, true), ShipFate::Respawn);
    assert_eq!(g.lives, 2);
    assert_eq!(g.handle_ship_collision(false, true), ShipFate::Respawn);
    assert_eq!(g.lives, 1);
    assert_eq!(g.screen, Screen::Playing);
    assert_eq!(g.handle_ship_collision(false, true), ShipFate::Destroyed);
    assert_eq!(g.lives, 0);
    assert_eq!(g.screen, Screen::GameOver);
}

#[test]
fn steering_prefers_left() {
    assert_eq!(turn_direction(true, true), -1);
    assert_eq!(turn_direction(true, false), -1);
    assert_eq!(turn_direction(false, true), 1);
    assert_eq!(turn_direction(false, false), 0);
}

#[test]
fn firing_respects_the_bullet_limit() {
    assert!(may_fire(true, true, 0));
    assert!(may_fire(true, true, MAX_BULLETS - 1));
    assert!(!may_fire(true, true, MAX_BULLETS));
    assert!(!may_fire(false, true, 0));
    assert!(!may_fire(true, false, 0));
}

#[test]
fn field_is_shown_only_in_a_running_game() {
    assert!(Screen::Playing.shows_field());
    assert!(Screen::Paused.shows_field());
    assert!(!Screen::Title.shows_field());
    assert!(!Screen::GameOver.shows_field());
}
