pub mod requirement;
pub mod text;
pub mod decimal;
pub mod expect;
pub mod jar;
pub mod shell;
pub mod system;
pub mod http;
pub mod step;
