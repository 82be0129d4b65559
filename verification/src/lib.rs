pub mod arrangement;
pub mod chance;
pub mod clock;
pub mod cycle;
pub mod error;
pub mod melody;
pub mod palette;
pub mod pattern;
pub mod scale;
pub mod session;
