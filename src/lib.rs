//! A tag-driven jukebox engine that keeps a music daemon's play queue fed
//! with shuffled songs chosen by set algebra over tag playlists.
pub mod daemon;
pub mod pool;
pub mod queue;
pub mod routes;
pub mod scheduler;
pub mod song;
pub mod tags;
pub mod text;
