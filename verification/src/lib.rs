//! The computing core of a game-client plugin that reports a trainee's
//! character and skill data to a local web page over a websocket.
pub mod decimal;
pub mod relay;
pub mod skill;
pub mod character;
pub mod message;
pub mod web;
pub mod icons;
pub mod init;
