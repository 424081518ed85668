pub mod codec;
pub mod errors;
pub mod file_io;
pub mod numeric;
pub mod output_display;
pub mod process;
pub mod registry;
pub mod text;
