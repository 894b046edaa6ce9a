pub mod fibonacci;
pub mod laws;
pub mod natural;

pub use fibonacci::Fibonacci;
pub use natural::Natural;
