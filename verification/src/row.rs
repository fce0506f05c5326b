//! Result rows: named columns holding decoded scalars.

use crate::value::{Scalar, SqlValue};
use vstd::prelude::*;

verus! {

/// One column of a result row.
#[derive(Debug, Clone, PartialEq, Eq)]
pub struct Column {
    pub name: String,
    pub value: SqlValue,
}

/// A result row: its columns in the order in which the store returned them.
#[derive(Debug, Clone, PartialEq, Eq)]
pub struct Row {
    pub columns: Vec<Column>,
}

impl View for Column {
    type V = (Seq<char>, Scalar);

    open spec fn view(&self) -> (Seq<char>, Scalar) {
        (self.name@, self.value@)
    }
}

impl View for Row {
    type V = Seq<(Seq<char>, Scalar)>;

    open spec fn view(&self) -> Seq<(Seq<char>, Scalar)> {
        self.columns@.map_values(|c: Column| c@)
    }
}

/// The scalar of the first column of `columns` that is named `name`.
pub open spec fn lookup(columns: Seq<(Seq<char>, Scalar)>, name: Seq<char>) -> Option<Scalar>
    decreases columns.len(),
{
    if columns.len() == 0 {
        None
    } else if columns.first().0 == name {
        Some(columns.first().1)
    } else {
        lookup(columns.drop_first(), name)
    }
}

/// Why a row could not be turned into a record.
#[derive(Debug, Clone, PartialEq, Eq)]
pub enum ConversionError {
    /// The row has no column of this name.
    MissingColumn(String),
    /// The column of this name holds a scalar that the field cannot take.
    WrongType(String),
}

/// A conversion error as the contracts speak of it.
pub enum ConversionFault {
    MissingColumn(Seq<char>),
    WrongType(Seq<char>),
}

impl View for ConversionError {
    type V = ConversionFault;

    open spec fn view(&self) -> ConversionFault {
        match *self {
            ConversionError::MissingColumn(name) => ConversionFault::MissingColumn(name@),
            ConversionError::WrongType(name) => ConversionFault::WrongType(name@),
        }
    }
}

impl Row {
    /// A row without columns.
    pub fn new() -> (row: Row)
        ensures
            row@ == Seq::<(Seq<char>, Scalar)>::empty(),
    {
        let row = Row { columns: Vec::new() };
        proof {
            assert(row@ =~= Seq::<(Seq<char>, Scalar)>::empty());
        }
        row
    }

    /// Appends a column behind those that the row has.
    pub fn push(&mut self, name: &str, value: SqlValue)
        ensures
            final(self)@ == old(self)@.push((name@, value@)),
    {
        self.columns.push(Column { name: String::from_str(name), value });
        proof {
            assert(self@ =~= old(self)@.push((name@, value@)));
        }
    }

    /// The number of columns.
    pub fn len(&self) -> (n: usize)
        ensures
            n == self@.len(),
    {
        self.columns.len()
    }

    /// The value of the first column named `name`, if the row has one.
    pub fn get(&self, name: &str) -> (found: Option<&SqlValue>)
        ensures
            match found {
                Some(value) => lookup(self@, name@) == Some(value@),
                None => lookup(self@, name@) is None,
            },
    {
        let wanted = String::from_str(name);
        let mut i: usize = 0;
        proof {
            assert(self@.skip(0) =~= self@);
        }
        while i < self.columns.len()
            invariant
                i <= self.columns.len(),
                wanted@ == name@,
                lookup(self@, name@) == lookup(self@.skip(i as int), name@),
            decreases self.columns.len() - i,
        {
            proof {
                assert(self@.skip(i as int).first() == self.columns@[i as int]@);
                assert(self@.skip(i as int).drop_first() =~= self@.skip(i + 1));
            }
            if self.columns[i].name == wanted {
                return Some(&self.columns[i].value);
            }
            i += 1;
        }
        None
    }
}

impl Row {
    /// The truth value of the column named `name`. Fails if the row has no
    /// such column, or if the column holds anything else.
    pub fn get_bool(&self, name: &str) -> (r: Result<bool, ConversionError>)
        ensures
            match lookup(self@, name@) {
                None => r matches Err(error) && error@ == ConversionFault::MissingColumn(name@),
                Some(Scalar::Bool(value)) => r == Ok::<bool, ConversionError>(value),
                Some(_) => r matches Err(error) && error@ == ConversionFault::WrongType(name@),
            },
    {
        match self.get(name) {
            None => Err(ConversionError::MissingColumn(String::from_str(name))),
            Some(SqlValue::Bool(value)) => Ok(*value),
            Some(_) => Err(ConversionError::WrongType(String::from_str(name))),
        }
    }

    /// The 32-bit integer of the column named `name`. Fails if the row has
    /// no such column, or if the column holds anything else.
    pub fn get_int4(&self, name: &str) -> (r: Result<i32, ConversionError>)
        ensures
            match lookup(self@, name@) {
                None => r matches Err(error) && error@ == ConversionFault::MissingColumn(name@),
                Some(Scalar::Int4(value)) => r == Ok::<i32, ConversionError>(value),
                Some(_) => r matches Err(error) && error@ == ConversionFault::WrongType(name@),
            },
    {
        match self.get(name) {
            None => Err(ConversionError::MissingColumn(String::from_str(name))),
            Some(SqlValue::Int4(value)) => Ok(*value),
            Some(_) => Err(ConversionError::WrongType(String::from_str(name))),
        }
    }

    /// The 64-bit integer of the column named `name`. Fails if the row has
    /// no such column, or if the column holds anything else.
    pub fn get_int8(&self, name: &str) -> (r: Result<i64, ConversionError>)
        ensures
            match lookup(self@, name@) {
                None => r matches Err(error) && error@ == ConversionFault::MissingColumn(name@),
                Some(Scalar::Int8(value)) => r == Ok::<i64, ConversionError>(value),
                Some(_) => r matches Err(error) && error@ == ConversionFault::WrongType(name@),
            },
    {
        match self.get(name) {
            None => Err(ConversionError::MissingColumn(String::from_str(name))),
            Some(SqlValue::Int8(value)) => Ok(*value),
            Some(_) => Err(ConversionError::WrongType(String::from_str(name))),
        }
    }

    /// The text of the column named `name`. Fails if the row has no such
    /// column, or if the column holds anything else.
    pub fn get_text(&self, name: &str) -> (r: Result<String, ConversionError>)
        ensures
            match lookup(self@, name@) {
                None => r matches Err(error) && error@ == ConversionFault::MissingColumn(name@),
                Some(Scalar::Text(value)) => r matches Ok(text) && text@ == value,
                Some(_) => r matches Err(error) && error@ == ConversionFault::WrongType(name@),
            },
    {
        match self.get(name) {
            None => Err(ConversionError::MissingColumn(String::from_str(name))),
            Some(SqlValue::Text(value)) => Ok(value.clone()),
            Some(_) => Err(ConversionError::WrongType(String::from_str(name))),
        }
    }
}

impl ConversionError {
    /// The error as a line of text.
    pub fn message(&self) -> (text: String)
        ensures
            text@ == conversion_message(self@),
    {
        match self {
            ConversionError::MissingColumn(name) => {
                let mut text = String::from_str("missing column: ");
                text.append(name.as_str());
                text
            },
            ConversionError::WrongType(name) => {
                let mut text = String::from_str("wrong type in column: ");
                text.append(name.as_str());
                text
            },
        }
    }
}

/// The text of a conversion error.
pub open spec fn conversion_message(fault: ConversionFault) -> Seq<char> {
    match fault {
        ConversionFault::MissingColumn(name) => "missing column: "@ + name,
        ConversionFault::WrongType(name) => "wrong type in column: "@ + name,
    }
}

} // verus!
