//! The logic of the HuFu input method front ends.
//!
//! What a function returns, and what it does to its state, is stated in its contract and
//! verified. The calls into `serde_json`, and two into the standard library, are taken on
//! trust; each says what it claims of the function that it calls.

pub mod addword;
pub mod base64;
pub mod canduielement;
pub mod candwin;
pub mod candwin2;
pub mod candwin3;
pub mod client;
pub mod color;
pub mod com;
pub mod displayattr;
pub mod drag;
pub mod frame;
pub mod geometry;
pub mod http;
pub mod ipc;
pub mod json;
pub mod labels;
pub mod langbar;
pub mod layered;
pub mod lookup;
pub mod morph;
pub mod motion;
pub mod number;
pub mod place;
pub mod request;
pub mod rows;
pub mod session;
pub mod skin;
pub mod smoke;
pub mod sound;
pub mod text;
pub mod utf16;
pub mod watch;
