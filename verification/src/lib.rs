//! An object-relational mapping layer: entity descriptors derived from record
//! declarations, and the parameterised SQL statements built from them.

pub mod derive;
pub mod descriptor;
pub mod entity;
pub mod field_info;
pub mod models;
pub mod row;
pub mod statement;
pub mod syntax;
pub mod text;
pub mod to_one;
pub mod value;

pub use derive::{derive_entity_fn, DeriveError};
pub use descriptor::{EntityDescriptor, Record};
pub use entity::{ColumnMap, Entity};
pub use field_info::FieldInfo;
pub use models::Scale;
pub use row::{Column, ConversionError, Row};
pub use statement::{
    bind, build_insert, expand_select, insert_statement, insert_text, materialize,
    query_statement, quote_sql_ident, Statement,
};
pub use to_one::ToOne;
pub use value::{ParamRef, SqlValue};
