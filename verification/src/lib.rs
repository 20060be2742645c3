//! Slide decks built by talking.
pub mod agent;
pub mod assets;
pub mod calls;
pub mod config;
pub mod deck;
pub mod deck_json;
pub mod embed;
pub mod fixed;
pub mod ids;
pub mod images;
pub mod json;
pub mod num;
pub mod ops;
pub mod pages;
pub mod placing;
pub mod projects;
pub mod provider;
pub mod realtime;
pub mod refs;
pub mod relay;
pub mod render;
pub mod requests;
pub mod rounds;
pub mod session;
pub mod text;
pub mod tools;
