pub mod transcribe;
pub mod translate;
