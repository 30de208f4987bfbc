//! An N×N tic-tac-toe engine with a random player and a minimax player.
pub mod game;
pub mod agent;
