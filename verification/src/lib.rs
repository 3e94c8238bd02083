pub mod chamber;
pub mod game;
pub mod keyed;
pub mod json;
pub mod text;
pub mod model;
pub mod outside;
pub mod config;
pub mod state;
pub mod session;
pub mod observer;
pub mod relay_laws;
