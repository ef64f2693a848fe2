pub mod buf;
pub mod chunk;
pub mod constants;
pub mod laws;
pub mod mem;
pub mod spooled;
pub mod types;
pub mod utils;

pub use buf::StreamBuffer;
pub use utils::no_capacity_vec;
pub use utils::sized_vec;
