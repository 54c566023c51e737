//! Model/view synchronisation and pointer hit-testing for a "Fences" puzzle board.
//!
//! The puzzle board keeps an append-only log of moves; a view holds one visual
//! element per candidate fence. Synchronisation replays only the moves that the
//! view has not seen yet, and hit-testing maps a pointer position to at most one
//! edge.
pub mod edge;
pub mod puzzle;
pub mod view;
pub mod board;
pub mod interaction;
pub mod scene;
