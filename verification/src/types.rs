pub mod session;
pub mod text;
