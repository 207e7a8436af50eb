pub mod parse_titles;
pub mod youdao_transcribe;
