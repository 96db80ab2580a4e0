//! Replay statistics for competitive Tetris: board geometry, the per-game
//! placement analyzer, the mergeable statistics bundle, the replay cache
//! policy and the client/parser session protocol.

pub mod ai_input;
pub mod board_analyzer;
pub mod cache;
pub mod placement_stats;
pub mod players;
pub mod replay_job;
pub mod replay_response;
pub mod segment_analyzer;
pub mod session;
pub mod text;
