//! A verified terminal-rendering engine for interactive, line-oriented
//! prompts: a prompt-runner state machine with exact row/scrollback
//! bookkeeping, the layout and widget contracts shared by all renderable
//! units, a backend capability contract over a real terminal, and a generic
//! paginated-list engine with selection, hover, wraparound and scrolling.

pub mod backend;
pub mod choice;
pub mod error;
pub mod expand;
pub mod events;
pub mod layout;
pub mod question;
pub mod rawlist;
pub mod input;
pub mod select;
pub mod symbols;
pub mod widget;
pub mod widgets;
