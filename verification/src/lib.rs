pub mod codec;
pub mod error;
pub mod radio;
pub mod ws;
pub mod media_player;
pub mod soundcloud;
