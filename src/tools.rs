pub mod get_console_output;
pub mod get_studio;
pub mod get_studio_mode;
pub mod insert_model;
pub mod list_studios;
pub mod run_code;
pub mod run_script_in_play_mode;
pub mod set_studio;
pub mod start_stop_play;
