pub mod error;
pub mod laws;
pub mod scanner;
pub mod text;
pub mod token;

pub use error::ScanError;
pub use scanner::{scan, Scanner};
pub use token::Token;
