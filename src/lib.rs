pub mod config;
pub mod control;
pub mod fsm;
pub mod library;
pub mod listener;
pub mod text;
