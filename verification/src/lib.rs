//! The decisions behind a database client's result grid and its modals.
pub mod assistant;
pub mod bars;
pub mod cell;
pub mod columns;
pub mod commit;
pub mod events;
pub mod find;
pub mod geometry;
pub mod headers;
pub mod history;
pub mod import_modal;
pub mod import_read;
pub mod json;
pub mod keymap;
pub mod keys;
pub mod menu;
pub mod model;
pub mod paste;
pub mod plan;
pub mod query;
pub mod row_panel;
pub mod selection;
pub mod sort;
pub mod staged;
pub mod state;
pub mod text;
pub mod toolbar;
pub mod view;
