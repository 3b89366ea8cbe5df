pub mod certificate_monitor;
pub mod compose;
pub mod compose_types;
pub mod container_monitor;
pub mod image_version;
pub mod install_commands;
pub mod last_run;
pub mod paths;
pub mod scheduler;
pub mod service_commands;
pub mod show_status;
pub mod slack;
pub mod status;
pub mod system_monitor;
pub mod tasks;
pub mod text;
pub mod text_map;
pub mod time;
pub mod yaml;
