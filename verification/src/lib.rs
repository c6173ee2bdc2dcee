//! Verified core of the Insulator desktop client: theme resolution, the
//! composer's autocompletion popup, the project and rename dialogs, haptic
//! feedback settings, daemon launch decisions and the parsers behind the
//! platform integration.

pub mod text;
pub mod theme;
pub mod appearance;
pub mod haptics;
pub mod platform;
pub mod autocomplete;
pub mod project_dialog;
pub mod daemon;
pub mod fonts;
pub mod composer_sources;
