//! Five in a row over the network: the rules of the game, the server that
//! keeps the rooms, and the client that plays in them.

pub mod board;
pub mod effects;
pub mod game;
pub mod laws;
pub mod lobby;
pub mod outside;
pub mod play;
pub mod protocol;
pub mod render;
pub mod room;
pub mod rooms;
pub mod screens;
pub mod server;
pub mod setup;
pub mod steps;
pub mod text;

pub use board::{check_win, Board, Piece, BOARD_SIZE};
pub use protocol::{ClientMsg, ServerMsg};
