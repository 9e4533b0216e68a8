//! Discord announcements turned into Instagram captions, with the rules of the
//! bots around them.

pub mod calendar;
pub mod db;
pub mod discord;
pub mod gateway;
pub mod images;
pub mod instagram;
pub mod json;
pub mod log;
pub mod moderation;
pub mod patterns;
pub mod poller;
pub mod state;
pub mod strmap;
pub mod telegram;
pub mod text;
pub mod transform;
pub mod weekly_poll;
pub mod window;
