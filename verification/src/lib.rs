//! The domain library of a small photo diary: admin sessions, diaries grouped
//! into days, content-addressed image blobs and the rendering model of a page.
pub mod auth;
pub mod diary;
pub mod error;
pub mod forms;
pub mod images;
pub mod raster;
pub mod text;
pub mod tokens;
pub mod views;
pub mod zones;
