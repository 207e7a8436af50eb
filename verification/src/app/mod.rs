pub mod main;
pub mod parse_titles;
pub mod parse_ps;
pub mod impls;
