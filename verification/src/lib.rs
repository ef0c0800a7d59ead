pub mod slp;
pub mod util;
