//! Layout: box types, flexbox, text, style values, tables, forms and
//! grids.

pub mod box_model;
pub mod flex;
pub mod flow;
pub mod text;
pub mod style;
pub mod table;
pub mod form;
pub mod grid;
pub mod cascade;
pub mod specificity_order;
