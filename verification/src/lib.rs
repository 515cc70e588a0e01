//! Verified core logic of a terminal and SFTP workspace: settings models,
//! localisation lookup, theme colour notation, remote shell command planning
//! and listing parsers.
pub mod external_edit;
pub mod i18n;
pub mod launcher;
pub mod remote_paste;
pub mod settings_model;
pub mod settings_view;
pub mod sftp;
pub mod sidebar_layout;
pub mod text;
pub mod theme;
pub mod ui;
pub mod workspace;
