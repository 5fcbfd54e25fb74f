//! A gateway between people, language models and tools: everything that it decides or
//! computes, with the proof that it does what it says.
pub mod agent;
pub mod agent_manager;
pub mod channels;
pub mod cli;
pub mod config;
pub mod database;
pub mod gateway;
pub mod llm;
pub mod models;
pub mod name_map;
pub mod numbers;
pub mod paths;
pub mod patterns;
pub mod permissions;
pub mod project;
pub mod run;
pub mod scheduler;
pub mod sort;
pub mod stream;
pub mod text;
pub mod tools;
pub mod value;
pub mod web;
pub mod workspace;
