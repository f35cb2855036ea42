use vstd::prelude::*;
use crate::config::GameConfig;
use crate::round::{init_model, RoundState};

verus! {

// The session controller: the process-lifetime state machine that
// alternates between running a round and showing the game-over overlay
// until a restart. It loops indefinitely; only the environment ends it.

/// Where the session currently stands.
pub enum SessionMode {
    /// A round is running.
    Playing,
    /// The last round ended with this final score; the overlay is shown
    /// until the restart key is pressed.
    GameOver { final_score: u64 },
}

/// The session state: the current mode under the fixed configuration.
pub struct Session {
    pub cfg: GameConfig,
    pub mode: SessionMode,
}

impl Session {
    /// A session starts playing its first round.
    pub fn new(cfg: GameConfig) -> (s: Session)
        requires
            cfg.wf(),
        ensures
            s.cfg == cfg,
            s.cfg.wf(),
            s.mode is Playing,
    {
        Session { cfg, mode: SessionMode::Playing }
    }

    /// The running round ended with `final_score`: show the overlay.
    pub fn round_over(&mut self, final_score: u64)
        requires
            old(self).mode is Playing,
        ensures
            final(self).cfg == old(self).cfg,
            final(self).mode == (SessionMode::GameOver { final_score }),
    {
        self.mode = SessionMode::GameOver { final_score };
    }

    /// The restart key was pressed on the overlay: start a fresh round,
    /// with the entity collections empty and the score reset to zero.
    pub fn restart(&mut self) -> (round: RoundState)
        requires
            old(self).mode is GameOver,
            old(self).cfg.wf(),
        ensures
            final(self).cfg == old(self).cfg,
            final(self).mode is Playing,
            round.wf(),
            round.cfg == old(self).cfg,
            round@ == init_model(old(self).cfg),
            round@.score == 0,
    {
        self.mode = SessionMode::Playing;
        RoundState::new(self.cfg)
    }
}

} // verus!
