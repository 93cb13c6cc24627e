//! Orchestration core for a coding-agent foreman service.
pub mod agent;
pub mod agent_events;
pub mod agent_status;
pub mod agent_turns;
pub mod auth;
pub mod budget;
pub mod callback;
pub mod cli;
pub mod client;
pub mod config;
pub mod constants;
pub mod doctor;
pub mod error;
pub mod events;
pub mod extract;
pub mod failure;
pub mod foreman;
pub mod governor;
pub mod graph;
pub mod id_map;
pub mod ids;
pub mod job;
pub mod job_status;
pub mod jobs;
pub mod json;
pub mod json_build;
pub mod json_search;
pub mod json_text;
pub mod launch;
pub mod lint;
pub mod manifest;
pub mod models;
pub mod monitoring;
pub mod paths;
pub mod payload;
pub mod post_turn;
pub mod project;
pub mod project_requests;
pub mod projects;
pub mod protocol;
pub mod recovery;
pub mod registry;
pub mod resolve;
pub mod restore;
pub mod scope;
pub mod sorting;
pub mod state;
pub mod stub;
pub mod template;
pub mod text;
pub mod text_map;
pub mod text_search;
pub mod time_order;
pub mod tool_callback;
pub mod tools;
pub mod turns;
pub mod vars;
pub mod workers;
pub mod worktree;
