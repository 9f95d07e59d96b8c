//! A verified core for a Discord bot: message and playtime bookkeeping, command
//! argument handling, shipment and vote rules, and the text the bot replies with.

pub mod text;
pub mod playtime;
pub mod shippo;
pub mod calendar;
pub mod pattern;
pub mod window;
pub mod twitch;
pub mod vote;
pub mod presence;
pub mod activity;
pub mod raiderio;
pub mod wow;
pub mod commands;
pub mod weather;
pub mod fun;
pub mod members;
pub mod embeds;
pub mod images;
