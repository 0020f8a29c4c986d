//! Display helpers: text fitting, the dashboard grid and the service
//! summaries shown on cards and in the detail view, and the status bar.

pub mod card;
pub mod dashboard;
pub mod detail_view;
pub mod host_list;
pub mod input;
pub mod snippets;
pub mod status_bar;
pub mod theme;
