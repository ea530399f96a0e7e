//! Verified core of a terminal browser and editor for star systems, their
//! planets and their moons: exact decimal numbers, entities with editable
//! fields, selection lists, the popup navigation of the editor, the
//! find-as-you-type filter, and the reading of the tables the data comes in.

pub mod text;
pub mod number;
pub mod field;
pub mod moon;
pub mod center_star;
pub mod planet;
pub mod planet_system;
pub mod list;
pub mod states;
pub mod find;
pub mod editor;
pub mod loader;
