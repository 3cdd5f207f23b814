//! Verified game logic, state machines and text helpers of the P2P Go user interface.

pub mod board_widget;
pub mod bootstrap_status;
pub mod chars;
mod clock;
pub mod connection_status;
pub mod clipboard_helper;
pub mod enhanced_lobby;
pub mod error_logger;
pub mod game_activity_logger;
pub mod game_controls;
pub mod go3d;
pub mod go3d_wireframe;
mod keyed;
pub mod heat_map;
pub mod labeled_input;
pub mod lobby;
pub mod network_events;
pub mod network_panel;
pub mod neural_config_ui;
pub mod neural_visualization;
pub mod offline_game;
pub mod peer_list;
mod random;
pub mod region;
pub mod screen;
pub mod sgf_training_ui;
pub mod text;
