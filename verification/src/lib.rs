pub mod text;
pub mod organize;
pub mod desktop;
pub mod downloads;
pub mod duplicates;
pub mod timer;
pub mod window;
pub mod clean;
pub mod context_menu;
pub mod tasks;
pub mod snap_line;
pub mod commands;
