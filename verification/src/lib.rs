//! A gateway in front of servers that generate text.

pub mod assets;
pub mod choice_laws;
pub mod clock;
pub mod effect_laws;
pub mod embedding;
pub mod history_laws;
pub mod home;
pub mod home_laws;
pub mod index;
pub mod index_laws;
pub mod keeping_laws;
pub mod keys;
pub mod llm;
pub mod llm_laws;
pub mod outside;
pub mod protocol;
pub mod queue;
pub mod queue_laws;
pub mod request;
pub mod request_laws;
pub mod round_laws;
pub mod scan;
pub mod search;
pub mod server;
pub mod state;
pub mod storage;
pub mod stream;
pub mod text;
pub mod types;
pub mod view_laws;
pub mod world;
