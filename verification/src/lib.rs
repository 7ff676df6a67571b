pub mod text;
pub mod numbers;
pub mod strmap;
pub mod http;
pub mod json;
pub mod rrhttp;
pub mod tokens;
pub mod mgmt;
pub mod control;
pub mod container;
pub mod upload;
pub mod rrpc;
pub mod cli;
pub mod check;
pub mod api;
pub mod report;
pub mod camera;
