pub mod csv;
pub mod editor;
pub mod sheet;
pub mod state;
pub mod text;
pub mod viewport;
