use vstd::prelude::*;

verus! {

/// Lives a fresh game starts with.
pub const START_LIVES: i32 = 3;

/// At most this many of the player's bullets are in flight at once.
pub const MAX_BULLETS: usize = 6;

/// Which screen the game shows.
#[derive(Clone, Copy, PartialEq, Eq, Structural, Debug)]
pub enum Screen {
    Title,
    Playing,
    Paused,
    GameOver,
}

impl Screen {
    /// The playing field (ship and heads-up display) is drawn while a game is
    /// running, paused or not.
    pub open spec fn spec_shows_field(self) -> bool {
        self == Screen::Playing || self == Screen::Paused
    }

    pub fn shows_field(self) -> (b: bool)
        ensures
            b == self.spec_shows_field(),
    {
        match self {
            Screen::Playing | Screen::Paused => true,
            Screen::Title | Screen::GameOver => false,
        }
    }
}

/// What the rest of a frame does after the screen logic has run.
#[derive(Clone, Copy, PartialEq, Eq, Structural, Debug)]
pub enum FrameAction {
    /// A new game was just started: reset the ship, bullets, asteroids and
    /// particles, then let the particles play out.
    Restart,
    /// Only the leftover particles move (title and game-over screens).
    AnimateParticles,
    /// Nothing moves this frame (paused, or the pause key was just pressed).
    Freeze,
    /// The whole world advances: ship, bullets, asteroids, collisions, waves.
    RunWorld,
}

/// What became of the ship this frame.
#[derive(Clone, Copy, PartialEq, Eq, Structural, Debug)]
pub enum ShipFate {
    /// No collision took effect.
    Unharmed,
    /// The ship was destroyed and a life remains: a new ship appears.
    Respawn,
    /// The ship was destroyed with no life left: the game is over.
    Destroyed,
}

/// The game's discrete state: screen, score, session high score, lives, wave.
#[derive(Clone, Copy, PartialEq, Eq, Structural, Debug)]
pub struct Game {
    pub screen: Screen,
    pub score: u32,
    pub high_score: u32,
    pub lives: i32,
    pub wave: u32,
}

/// Number of large asteroids that wave `wave` starts with.
pub open spec fn wave_size(wave: int) -> int {
    3 + if wave < 7 { wave } else { 7 }
}

impl Game {
    /// The states a game can be in: the high score is never below the score,
    /// lives stay between zero and the starting count, a running game has a
    /// life left, and a finished one has none.
    pub open spec fn wf(self) -> bool {
        &&& self.score <= self.high_score
        &&& 0 <= self.lives <= START_LIVES
        &&& self.screen.spec_shows_field() ==> self.lives >= 1
        &&& self.screen == Screen::GameOver ==> self.lives == 0
    }

    /// A fresh session on the title screen.
    pub fn new() -> (g: Game)
        ensures
            g.screen == Screen::Title,
            g.score == 0,
            g.high_score == 0,
            g.lives == START_LIVES,
            g.wave == 0,
            g.wf(),
    {
        Game { screen: Screen::Title, score: 0, high_score: 0, lives: START_LIVES, wave: 0 }
    }

    /// Starts a new game; the session high score is kept.
    pub fn start(&mut self)
        ensures
            *final(self) == old(self).spec_started(),
            old(self).wf() ==> final(self).wf(),
    {
        self.score = 0;
        self.lives = START_LIVES;
        self.wave = 0;
        self.screen = Screen::Playing;
    }

    /// Moves on to the next wave and returns how many large asteroids it
    /// brings: three more than the wave number, but never more than ten.
    pub fn next_wave(&mut self) -> (count: usize)
        requires
            old(self).wave < u32::MAX,
        ensures
            final(self).wave == old(self).wave + 1,
            count == wave_size(final(self).wave as int),
            final(self).screen == old(self).screen,
            final(self).score == old(self).score,
            final(self).high_score == old(self).high_score,
            final(self).lives == old(self).lives,
            old(self).wf() ==> final(self).wf(),
    {
        self.wave = self.wave + 1;
        let extra: u32 = if self.wave < 7 { self.wave } else { 7 };
        3 + extra as usize
    }

    /// The game as `start` leaves it.
    pub open spec fn spec_started(self) -> Game {
        Game { screen: Screen::Playing, score: 0, lives: START_LIVES, wave: 0, ..self }
    }

    /// The screen logic of one frame: the state it leaves and what the rest
    /// of the frame does. On the title and game-over screens a start key
    /// starts a new game; while paused only the pause key (resume) counts;
    /// while playing the pause key pauses and otherwise the world runs.
    pub open spec fn spec_update(self, start_pressed: bool, pause_pressed: bool) -> (Game, FrameAction) {
        match self.screen {
            Screen::Title | Screen::GameOver => if start_pressed {
                (self.spec_started(), FrameAction::Restart)
            } else {
                (self, FrameAction::AnimateParticles)
            },
            Screen::Paused => if pause_pressed {
                (Game { screen: Screen::Playing, ..self }, FrameAction::Freeze)
            } else {
                (self, FrameAction::Freeze)
            },
            Screen::Playing => if pause_pressed {
                (Game { screen: Screen::Paused, ..self }, FrameAction::Freeze)
            } else {
                (self, FrameAction::RunWorld)
            },
        }
    }

    /// The screen logic of one frame, given whether a start key (Enter or
    /// Space) and a pause key (P or Escape) were pressed this frame.
    pub fn update(&mut self, start_pressed: bool, pause_pressed: bool) -> (action: FrameAction)
        ensures
            (*final(self), action) == old(self).spec_update(start_pressed, pause_pressed),
            old(self).wf() ==> final(self).wf(),
    {
        match self.screen {
            Screen::Title | Screen::GameOver => {
                if start_pressed {
                    self.start();
                    FrameAction::Restart
                } else {
                    FrameAction::AnimateParticles
                }
            },
            Screen::Paused => {
                if pause_pressed {
                    self.screen = Screen::Playing;
                }
                FrameAction::Freeze
            },
            Screen::Playing => {
                if pause_pressed {
                    self.screen = Screen::Paused;
                    FrameAction::Freeze
                } else {
                    FrameAction::RunWorld
                }
            },
        }
    }

    /// The ship's collision outcome: when the ship is vulnerable and touches
    /// an asteroid it loses a life, and the game ends when no life is left.
    pub fn handle_ship_collision(&mut self, invulnerable: bool, collided: bool) -> (fate: ShipFate)
        requires
            !invulnerable && collided ==> old(self).lives > i32::MIN,
        ensures
            invulnerable || !collided ==> fate == ShipFate::Unharmed && *final(self) == *old(self),
            !invulnerable && collided ==> {
                &&& final(self).lives == old(self).lives - 1
                &&& final(self).score == old(self).score
                &&& final(self).high_score == old(self).high_score
                &&& final(self).wave == old(self).wave
                &&& if final(self).lives <= 0 {
                    fate == ShipFate::Destroyed && final(self).screen == Screen::GameOver
                } else {
                    fate == ShipFate::Respawn && final(self).screen == old(self).screen
                }
            },
            old(self).wf() && old(self).screen == Screen::Playing ==> final(self).wf(),
    {
        if invulnerable || !collided {
            return ShipFate::Unharmed;
        }
        self.lives = self.lives - 1;
        if self.lives <= 0 {
            self.screen = Screen::GameOver;
            ShipFate::Destroyed
        } else {
            ShipFate::Respawn
        }
    }
}

/// Steering input: left wins over right, and no key means no turn.
pub fn turn_direction(left_held: bool, right_held: bool) -> (turn: i8)
    ensures
        turn == (if left_held {
            -1i8
        } else if right_held {
            1i8
        } else {
            0i8
        }),
{
    if left_held {
        -1
    } else if right_held {
        1
    } else {
        0
    }
}

/// A bullet is fired when the fire key is held, the gun has cooled down and
/// fewer than the maximum number of bullets are in flight.
pub fn may_fire(fire_held: bool, cooled_down: bool, bullets_in_flight: usize) -> (fire: bool)
    ensures
        fire == (fire_held && cooled_down && bullets_in_flight < MAX_BULLETS),
{
    fire_held && cooled_down && bullets_in_flight < MAX_BULLETS
}

/// Waves grow more crowded and then level off: the number of large
/// asteroids never shrinks from one wave to a later one, every wave has at
/// least four, and none has more than ten.
pub proof fn lemma_waves_grow_then_level_off(earlier: int, later: int)
    requires
        1 <= earlier <= later,
    ensures
        wave_size(earlier) <= wave_size(later),
        4 <= wave_size(earlier),
        wave_size(later) <= 10,
        later >= 7 ==> wave_size(later) == 10,
{
}

/// Pausing and resuming is a round trip: from a running game, pressing the
/// pause key freezes the world, and pressing it again returns to exactly the
/// same game, with nothing moved in between.
pub proof fn lemma_pause_round_trip(g: Game, start_first: bool, start_second: bool)
    requires
        g.screen == Screen::Playing,
    ensures
        g.spec_update(start_first, true).1 == FrameAction::Freeze,
        g.spec_update(start_first, true).0.spec_update(start_second, true).1 == FrameAction::Freeze,
        g.spec_update(start_first, true).0.spec_update(start_second, true).0 == g,
{
}

/// Starting a game always yields the same fresh game, whatever came before,
/// except that the session high score carries over.
pub proof fn lemma_start_is_fresh(a: Game, b: Game)
    requires
        a.high_score == b.high_score,
    ensures
        a.spec_started() == b.spec_started(),
        a.spec_started().score == 0 && a.spec_started().lives == START_LIVES
            && a.spec_started().wave == 0 && a.spec_started().screen == Screen::Playing,
{
}

/// A frame's screen logic leaves the session high score as it is, whether or
/// not it starts a new game.
pub proof fn lemma_update_keeps_high_score(g: Game, start_pressed: bool, pause_pressed: bool)
    ensures
        g.spec_update(start_pressed, pause_pressed).0.high_score == g.high_score,
{
}

/// During play, only the pause key matters: a frame without it leaves the
/// game exactly as it is and runs the world, whether or not a start key
/// (Space is also the fire key) is pressed.
pub proof fn lemma_playing_ignores_start_key(g: Game, start_pressed: bool)
    requires
        g.screen == Screen::Playing,
    ensures
        g.spec_update(start_pressed, false).0 == g,
        g.spec_update(start_pressed, false).1 == FrameAction::RunWorld,
{
}

/// The start key only has an effect on the title and game-over screens:
/// while a game is running or paused, pressing it or not gives the same
/// frame, and a frame never resets the score of a running game.
pub proof fn lemma_start_key_only_starts_from_menus(g: Game, pause_pressed: bool)
    requires
        g.screen == Screen::Playing || g.screen == Screen::Paused,
    ensures
        g.spec_update(true, pause_pressed) == g.spec_update(false, pause_pressed),
        g.spec_update(true, pause_pressed).0.score == g.score,
        g.spec_update(true, pause_pressed).0.lives == g.lives,
        g.spec_update(true, pause_pressed).0.wave == g.wave,
        g.spec_update(true, pause_pressed).1 != FrameAction::Restart,
{
}

/// A frame restarts the game exactly when a start key is pressed on the
/// title or game-over screen, and a restart gives a running game with no
/// score, full lives, wave zero and the session high score kept.
pub proof fn lemma_restart_only_from_menus(g: Game, start_pressed: bool, pause_pressed: bool)
    ensures
        (g.spec_update(start_pressed, pause_pressed).1 == FrameAction::Restart) <==> (start_pressed
            && (g.screen == Screen::Title || g.screen == Screen::GameOver)),
        g.spec_update(start_pressed, pause_pressed).1 == FrameAction::Restart ==> {
            let n = g.spec_update(start_pressed, pause_pressed).0;
            &&& n.screen == Screen::Playing
            &&& n.score == 0
            &&& n.lives == START_LIVES
            &&& n.wave == 0
            &&& n.high_score == g.high_score
        },
{
}

/// While paused, nothing moves: every frame freezes the world and keeps
/// score, high score, lives and wave, whatever keys are pressed.
pub proof fn lemma_paused_frames_freeze(g: Game, start_pressed: bool, pause_pressed: bool)
    requires
        g.screen == Screen::Paused,
    ensures
        g.spec_update(start_pressed, pause_pressed).1 == FrameAction::Freeze,
        g.spec_update(start_pressed, pause_pressed).0.score == g.score,
        g.spec_update(start_pressed, pause_pressed).0.high_score == g.high_score,
        g.spec_update(start_pressed, pause_pressed).0.lives == g.lives,
        g.spec_update(start_pressed, pause_pressed).0.wave == g.wave,
        g.spec_update(start_pressed, pause_pressed).0.screen == (if pause_pressed {
            Screen::Playing
        } else {
            Screen::Paused
        }),
{
}

/// On the title and game-over screens, a frame without a start key changes
/// nothing and only lets the particles play out.
pub proof fn lemma_menus_wait_for_start(g: Game, pause_pressed: bool)
    requires
        g.screen == Screen::Title || g.screen == Screen::GameOver,
    ensures
        g.spec_update(false, pause_pressed).0 == g,
        g.spec_update(false, pause_pressed).1 == FrameAction::AnimateParticles,
{
}

} // verus!
