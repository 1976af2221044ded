//! Menu navigation for a telephone voice-response service: a tree of prompts
//! addressed by a path of key presses, a store of per-call data, and the
//! templating that fills prompt text from that data.

pub mod ctxmgr;
pub mod example;
pub mod form;
pub mod ngrok;
pub mod resolution;
pub mod responses;
pub mod script;
pub mod service;
pub mod template;
pub mod text;
pub mod twil_api;
pub mod twiml;
pub mod webhook;
