//! The logic of a coding assistant's back end: the proxy to the providers of language models,
//! sessions, services, rules, skills and the state that they share.

pub mod clock;
pub mod graph;
pub mod ids;
pub mod json;
pub mod plugins;
pub mod proxy;
pub mod rules;
pub mod scan;
pub mod seqs;
pub mod services;
pub mod session;
pub mod skills;
pub mod slash_commands;
pub mod speculation;
pub mod state;
pub mod string_map;
pub mod text;
pub mod tools;
