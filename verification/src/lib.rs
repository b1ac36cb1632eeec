//! Core of a terminal assistant: what it says to the model, what it asks the user, what its tools
//! do, and what it makes of what comes back.
//!
//! Nothing here touches the outside world. Where something has to be read, written, run or sent, a
//! function says what, as plain data, and another one goes on with what came back:
//!
//! - `agent` runs the conversation, `execute` the tools, `course` the requests of a tool;
//! - `task` and `http` hold what is asked for and what comes back;
//! - `approval`, `commands` and `shell` decide what the user is asked first;
//! - `client`, `messages`, `models` and `tools` speak the language of the chat API;
//! - `search`, `reader`, `request` and `web` speak to providers on the web;
//! - `report` writes what the model is told of a tool's result;
//! - `config`, `paths` and `toast` hold settings, places and notifications;
//! - `text`, `lines`, `numeral`, `order` and `json` are what all of these are written in.

pub mod agent;
pub mod approval;
pub mod client;
pub mod commands;
pub mod config;
pub mod course;
pub mod execute;
pub mod http;
pub mod json;
pub mod lines;
pub mod messages;
pub mod models;
pub mod numeral;
pub mod order;
pub mod paths;
pub mod reader;
pub mod report;
pub mod request;
pub mod search;
pub mod shell;
pub mod task;
pub mod text;
pub mod toast;
pub mod tools;
pub mod web;
