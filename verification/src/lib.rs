//! Verified core of an inline (non-alternate-screen) streaming chat terminal
//! UI: transcript model, newline-gated markdown streaming, adaptive drain
//! policy, composer text editing, tool-block rendering and scrollback
//! emission.

pub mod chunking;
pub mod terminal_color;
pub mod welcome_banner;
pub mod text;
pub mod width;
pub mod wrap;
pub mod style;
pub mod textarea;
pub mod input;
pub mod markdown;
pub mod streaming;
pub mod message;
pub mod tool_render;
pub mod transcript;
pub mod renderer;
pub mod composer;
pub mod session_control;
pub mod screen;
