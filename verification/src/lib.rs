//! Presentation rules of the game client's user interface: what the panels
//! show, in which order, with which labels, and which visual tone each
//! element takes. Drawing itself lives outside this crate.

pub mod text;
pub mod solst;
pub mod order;
pub mod common;
pub mod crafting;
pub mod station;
pub mod context_menu;
pub mod quest;
pub mod board;
pub mod chat;
pub mod bank;
pub mod character;
pub mod world;
pub mod banner;
pub mod collection;
pub mod guide;
pub mod ge;
pub mod shop;
pub mod altar;
pub mod hud;
pub mod settings;
pub mod hotbar;
pub mod panels;
