pub mod cmds;
pub mod definitions;
pub mod error;
pub mod frame;
pub mod frame_data;
pub mod frame_info;
pub mod header;
pub mod pixel;
pub mod read;
pub mod row_bound;
pub mod slp;
pub mod types;
pub mod unpack;
