//! Research library for inspecting extracted definition files and modelling
//! the experimental backend services around them.
pub mod text;
pub mod digest;
pub mod parser;
pub mod index;
pub mod parser_laws;
pub mod table;
pub mod clock;
pub mod auth;
pub mod storage;
pub mod world;
pub mod activity;
pub mod framework;
pub mod network;
pub mod adapter;
pub mod server;
pub mod runtime;
pub mod explore;
pub mod harness;
pub mod api;
