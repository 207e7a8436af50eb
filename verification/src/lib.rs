//! Reading VOA news listing and article pages, and building the requests that
//! the reader sends to the Youdao translation and transcription services.
pub mod deps;
pub mod my_trait;
pub mod text;
pub mod app;
pub mod util;
