use vstd::prelude::*;

pub mod quarter;
pub mod text;
pub mod html;
pub mod num;
pub mod f10;
pub mod models;
pub mod api;
pub mod holdings;
pub mod calendar;
pub mod clock;
pub mod layout;
pub mod realtime;
pub mod scoring;
pub mod config;
pub mod analysis;
pub mod retry;
pub mod order;
