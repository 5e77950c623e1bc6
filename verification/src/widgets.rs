//! What the game draws into consoles of its own: the message log and menus.

pub mod scrolling_message_console;
pub mod menu;
