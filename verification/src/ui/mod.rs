//! The decisions behind the widgets.

pub mod api_key_field;
pub mod dialogs;
pub mod field;
pub mod header_field;
pub mod map_laws;
pub mod map_view;
pub mod preferences;
pub mod provider_list;
pub mod window;
