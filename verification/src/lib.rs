//! melo: the verified core of a keyboard-driven terminal music player for
//! a local music library.

pub mod app;
pub mod art;
pub mod cli;
pub mod keys;
pub mod library;
pub mod media;
pub mod notify;
pub mod props;
pub mod seqs;
pub mod text;
pub mod theme;
pub mod ui;
