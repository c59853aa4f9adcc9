//! Media-server "now playing" state turned into presence updates: choosing the
//! user's session, recovering from gaps in what the server reports, and
//! limiting how often the presence is updated.

pub mod covers;
pub mod discord;
pub mod gap;
pub mod jellyfin;
pub mod records;
pub mod state;
pub mod text;
