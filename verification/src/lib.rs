//! Verified core of the TAIS teaching engine: task lifecycle, goal parsing,
//! skill and model registries, conversation memory and the text rules that
//! route chat messages.

pub mod agent;
pub mod auth;
pub mod checkpoint;
pub mod command;
pub mod config;
pub mod conversation;
pub mod dag;
pub mod gene;
pub mod goal;
pub mod habit;
pub mod hot_memory;
pub mod lines;
pub mod memory;
pub mod llm;
pub mod mcp;
pub mod order;
pub mod page;
pub mod replies;
pub mod reply;
pub mod platform;
pub mod routing;
pub mod session;
pub mod shared;
pub mod skill_index;
pub mod skills;
pub mod task;
pub mod text;
pub mod tool_loop;
pub mod tutor;
pub mod ui;
pub mod user;
pub mod wechat;
pub mod workflow;
