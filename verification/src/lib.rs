//! The decision logic of a two-pane SFTP client.

pub mod about;
pub mod app_actions;
pub mod assets;
pub mod command_palette;
pub mod connect_actions;
pub mod connect_form;
pub mod dialogs;
pub mod dispatch;
pub mod drawer_height;
pub mod drawer_view;
pub mod edit_sessions;
pub mod event_coordinator;
pub mod events;
pub mod file_actions;
pub mod file_ops;
pub mod filters;
pub mod form_views;
pub mod front;
pub mod helpers;
pub mod keys;
pub mod laws;
pub mod lists;
pub mod logging;
pub mod modals;
pub mod model;
pub mod nav;
pub mod navigation;
pub mod palette_commands;
pub mod pane_view;
pub mod profiles;
pub mod rate_sampler;
pub mod recents;
pub mod remote_edit;
pub mod resources;
pub mod selection;
pub mod session_coordinator;
pub mod settings_actions;
pub mod tab_actions;
pub mod tabs;
pub mod text;
pub mod workspace;

