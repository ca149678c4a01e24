//! A tiny URL shortener: long URLs in, base-62 short codes out.
//!
//! Operations:
//!   shorten a URL      `{"url": "https://example.com/very/long"}` -> `{"short": "0"}`
//!   follow a code      redirects to the stored URL and counts the click
//!   code statistics    `{"short": "0", "clicks": 3}`

pub mod code;
pub mod handlers;
pub mod model;
pub mod store;
pub mod text;

pub use code::encode;
pub use handlers::{redirect, shorten, stats, AppError, ShortenRequest, ShortenResponse, StatsResponse};
pub use store::AppState;
