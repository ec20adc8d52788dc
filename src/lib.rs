pub mod ids;
pub mod lifecycle;
pub mod reply;
pub mod server_state;
pub mod text;
pub mod tools;
pub mod value;
