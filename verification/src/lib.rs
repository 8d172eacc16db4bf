//! Verified core of the Omni Stream backend proxy.

pub mod candles;
pub mod chart;
pub mod config;
pub mod decimal;
pub mod feed;
pub mod frame;
pub mod http;
pub mod json;
pub mod keys;
pub mod kucoin;
pub mod nim;
pub mod phemex;
pub mod rewrite;
pub mod script;
pub mod service;
pub mod text;
pub mod tv_laws;
pub mod tv_proxy;
pub mod tv_socket;
