pub mod text;
pub mod parse;
pub mod config;
pub mod split;
pub mod chat;
pub mod image;
pub mod urls;
pub mod paging;
pub mod games;
pub mod poll;
pub mod ranking;
pub mod events;
pub mod guild;
pub mod music;
pub mod animanga;
pub mod quote;
pub mod commands;
pub mod info;
pub mod ready;
pub mod media;
pub mod search;
pub mod picture;
