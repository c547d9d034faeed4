//! Text processing, agent state and tool logic of the Aurora coding assistant.
pub mod text;
pub mod telegram;
pub mod types;
pub mod dreaming;
pub mod config;
pub mod html_preprocess;
pub mod web_content;
pub mod agent;
pub mod protocol;
pub mod chat_view;
pub mod stream;
pub mod json;
pub mod server_agent;
pub mod dom;
pub mod pattern;
pub mod tools;
pub mod search;
pub mod ripgrep;
pub mod deneb;
pub mod session;
