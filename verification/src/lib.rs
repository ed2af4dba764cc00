//! Decision logic of the TorBox companion dashboard: selection state,
//! download status classification, sorting and filtering of the download
//! list, search result handling and upload link parsing.

pub mod actions;
pub mod chart;
pub mod clock;
pub mod dashboard;
pub mod download;
pub mod format;
pub mod loading;
pub mod rows;
pub mod search;
pub mod season;
pub mod selection;
pub mod spinner;
pub mod status;
pub mod table;
pub mod text;
pub mod upload;
