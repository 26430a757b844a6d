//! Block-compression encoders (BC4, BC5 and a restricted BC7).

pub mod bc4;
pub mod bc5;
pub mod bc7;
pub mod util;
