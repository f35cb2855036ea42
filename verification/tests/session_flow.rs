use shooter_game::config::GameConfig;
use shooter_game::entities::Enemy;
use shooter_game::geom::Vec2i;
use shooter_game::round::{FrameInput, RoundState};
use shooter_game::session::{Session, SessionMode};

fn test_config() -> GameConfig {
    GameConfig::new(800_000, 600_000).expect("test screen fits the simulation")
}

#[test]
fn session_cycles_playing_game_over_playing() {
    let mut s = Session::new(test_config());
    assert!(matches!(s.mode, SessionMode::Playing));
    s.round_over(42);
    assert!(matches!(s.mode, SessionMode::GameOver { final_score: 42 }));
    let round = s.restart();
    assert!(matches!(s.mode, SessionMode::Playing));
    assert_eq!(round.score, 0);
    assert_eq!(round.bullets.len(), 0);
    assert_eq!(round.enemies.len(), 0);
}

#[test]
fn score_resets_at_each_new_round() {
    let cfg = test_config();
    let mut s = Session::new(cfg);

    // Play one round to its game-over collision, with a nonzero score.
    let mut round = RoundState::new(cfg);
    round.spawn_timer = 10_000_000;
    round.score = 3;
    round.enemies.push(Enemy { pos: Vec2i { x: 368_000, y: 470_000 } });
    let mut final_score = 0;
    for _ in 0..100 {
        let out = round.step(FrameInput { dt_ms: 16, left: false, right: false, fire: false });
        if out.game_over {
            final_score = round.score;
            break;
        }
    }
    assert_eq!(final_score, 3);

    s.round_over(final_score);
    assert!(matches!(s.mode, SessionMode::GameOver { final_score: 3 }));

    // The fresh round starts from zero again.
    let next = s.restart();
    assert_eq!(next.score, 0);
}
