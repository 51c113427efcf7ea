//! Serving films to the player.

pub mod stream_film;
