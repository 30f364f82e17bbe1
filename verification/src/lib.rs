pub mod error;
pub mod models;
pub mod seq_facts;
pub mod rankings;
pub mod ranking_laws;
pub mod library;
pub mod text;
pub mod codec;
pub mod media;
pub mod game_launcher;
pub mod settings;
pub mod path_manager;
pub mod data_store;
pub mod logger;
pub mod json;
pub mod bangumi;
pub mod stats;
pub mod utils;
pub mod cache;
pub mod bangumi_fetch;
