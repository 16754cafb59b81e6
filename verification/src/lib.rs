//! Turns delimited text (comma- or tab-separated) into the pieces of a SQL
//! import script: a type vector inferred from the first data row, a header
//! rewritten as quoted identifiers, body rows rewritten as SQL literals, and
//! the final script text.

pub mod column;
pub mod input;
pub mod reform;
pub mod sql;
pub mod text;

pub use column::ColumnType;
pub use input::Filetype;
pub use input::InputFile;
pub use input::LoadError;
pub use input::ReformError;
pub use sql::sql_script;
