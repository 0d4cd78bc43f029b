//! Core logic of the cockroach break reminder: the work/break timer, the
//! persisted settings and their bounds, the labels shown in the tray and the
//! settings window, the lifecycle of the per-display overlay windows, the
//! sprite-frame bounding boxes, and the controller that ties them together.

pub mod config;
pub mod overlay_manager;
pub mod reminder;
pub mod settings_ui;
pub mod sprite;
pub mod timer;
pub mod tray;
