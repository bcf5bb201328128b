//! Turns the flat event stream of a markdown tokenizer into a document tree: nested
//! spans are matched by depth, code blocks are highlighted and classified, task
//! lists, tables, links and images get their special roles. Also holds the data
//! types of the content client and the registry of extensions.
pub mod text;
pub mod events;
pub mod matcher;
pub mod document;
pub mod classify;
pub mod highlight;
pub mod render;
pub mod client;
pub mod extensions;
