//! The entity capability: what a record type exposes so that statements can
//! be built for it and rows turned into it.

use crate::field_info::{field_names, FieldInfo, FieldInfoView};
use crate::row::{lookup, ConversionError, ConversionFault, Row};
use crate::value::{ParamRef, Scalar};
use vstd::hash_map::StringHashMap;
use vstd::prelude::*;

verus! {

/// A column map: for each field of a record, by name, a reference to the
/// value that the record holds there. It lives for one statement.
pub type ColumnMap<'a> = StringHashMap<ParamRef<'a>>;

/// The scalars that the parameters of a column map refer to.
pub open spec fn scalars<'a>(map: Map<Seq<char>, ParamRef<'a>>) -> Map<Seq<char>, Scalar> {
    map.map_values(|param: ParamRef<'a>| param@)
}

/// What keeps `row` from filling the field named `name`: the row has no
/// column of that name, or the field cannot take what the column holds.
pub open spec fn field_fault(
    row: Seq<(Seq<char>, Scalar)>,
    name: Seq<char>,
    accepts: spec_fn(Seq<char>, Scalar) -> bool,
) -> Option<ConversionFault> {
    match lookup(row, name) {
        None => Some(ConversionFault::MissingColumn(name)),
        Some(value) => if accepts(name, value) {
            None
        } else {
            Some(ConversionFault::WrongType(name))
        },
    }
}

/// Whether `r` is what turning `row` into a record with the fields `fields`
/// yields: the columns of a record that holds in each field the scalar of the
/// row's column of that name, or the fault of the first field, in declaration
/// order, that the row cannot fill.
pub open spec fn materialized(
    row: Seq<(Seq<char>, Scalar)>,
    fields: Seq<FieldInfoView>,
    accepts: spec_fn(Seq<char>, Scalar) -> bool,
    r: Result<Map<Seq<char>, Scalar>, ConversionFault>,
) -> bool {
    match r {
        Ok(columns) => forall|i: int|
            0 <= i < fields.len() ==> lookup(row, #[trigger] fields[i].name) == Some(
                columns[fields[i].name],
            ),
        Err(fault) => exists|i: int|
            {
                &&& 0 <= i < fields.len()
                &&& #[trigger] field_fault(row, fields[i].name, accepts) == Some(fault)
                &&& forall|k: int|
                    0 <= k < i ==> #[trigger] field_fault(row, fields[k].name, accepts) is None
            },
    }
}

/// A record type that is mapped to one table, each field to one column.
pub trait Entity: Sized {
    /// The table that the type is mapped to.
    spec fn table() -> Seq<char>;

    /// The field descriptors, in declaration order.
    spec fn fields() -> Seq<FieldInfoView>;

    /// What the record holds, by column name.
    spec fn columns(&self) -> Map<Seq<char>, Scalar>;

    /// Whether the field named `name` can take `value`.
    spec fn accepts(name: Seq<char>, value: Scalar) -> bool;

    /// No two fields share a name, and a record holds one scalar for each
    /// field, one that the field can take.
    proof fn lemma_columns(&self)
        ensures
            field_names(Self::fields()).no_duplicates(),
            self.columns().dom() == field_names(Self::fields()).to_set(),
            forall|name: Seq<char>| #[trigger]
                self.columns().contains_key(name) ==> Self::accepts(name, self.columns()[name]),
    ;

    /// The name of the table.
    fn table_name() -> (name: &'static str)
        ensures
            name@ == Self::table(),
    ;

    /// The field descriptors, in declaration order.
    fn field_infos() -> (infos: Vec<FieldInfo>)
        ensures
            infos.deep_view() == Self::fields(),
    ;

    /// Builds a record from a row: each field takes the scalar of the column
    /// of its name. Fails on the first field, in declaration order, whose
    /// column the row lacks or whose column the field cannot take.
    fn from_row(row: &Row) -> (r: Result<Self, ConversionError>)
        ensures
            materialized(
                row@,
                Self::fields(),
                |name: Seq<char>, value: Scalar| Self::accepts(name, value),
                match r {
                    Ok(entity) => Ok(entity.columns()),
                    Err(error) => Err(error@),
                },
            ),
    ;

    /// The column map of the record: one entry for each field.
    fn to_map(&self) -> (map: ColumnMap<'_>)
        ensures
            scalars(map@) == self.columns(),
    ;
}

/// Which scalars the fields of `T` take.
pub open spec fn acceptance<T: Entity>() -> spec_fn(Seq<char>, Scalar) -> bool {
    |name: Seq<char>, value: Scalar| T::accepts(name, value)
}

/// A conversion's result as the contracts speak of it: the columns of the
/// record, or the fault.
pub open spec fn outcome<T: Entity>(r: Result<T, ConversionError>) -> Result<
    Map<Seq<char>, Scalar>,
    ConversionFault,
> {
    match r {
        Ok(entity) => Ok(entity.columns()),
        Err(error) => Err(error@),
    }
}

/// A record that went through the store comes back equal in every field
/// whose value the store does not assign. If a row holds, for each such
/// field, the scalar that the record's column map gave, and for each other
/// field a scalar that the field can take, then the row turns into a record,
/// and that record holds in each field that is not generated what `entity`
/// holds there.
pub proof fn lemma_round_trip<T: Entity>(
    entity: T,
    row: Seq<(Seq<char>, Scalar)>,
    r: Result<T, ConversionError>,
)
    requires
        materialized(row, T::fields(), acceptance::<T>(), outcome(r)),
        forall|i: int|
            0 <= i < T::fields().len() && !T::fields()[i].generated ==> lookup(
                row,
                #[trigger] T::fields()[i].name,
            ) == Some(entity.columns()[T::fields()[i].name]),
        forall|i: int|
            0 <= i < T::fields().len() && T::fields()[i].generated ==> field_fault(
                row,
                #[trigger] T::fields()[i].name,
                acceptance::<T>(),
            ) is None,
    ensures
        r is Ok,
        forall|i: int|
            0 <= i < T::fields().len() && !T::fields()[i].generated ==> r.unwrap().columns()[
            #[trigger] T::fields()[i].name] == entity.columns()[T::fields()[i].name],
{
    entity.lemma_columns();
    let fields = T::fields();
    assert forall|i: int| 0 <= i < fields.len() implies field_fault(
        row,
        #[trigger] fields[i].name,
        acceptance::<T>(),
    ) is None by {
        if !fields[i].generated {
            let name = fields[i].name;
            assert(field_names(fields)[i] == name);
            assert(field_names(fields).to_set().contains(name));
            assert(entity.columns().contains_key(name));
        }
    }
}

/// Turning a row into a record undoes taking the record's column map: if a
/// row holds, for every field, the scalar that the record's column map gave
/// under the field's name, then the row turns into a record that holds in
/// every column what `entity` holds.
pub proof fn lemma_left_inverse<T: Entity>(
    entity: T,
    row: Seq<(Seq<char>, Scalar)>,
    r: Result<T, ConversionError>,
)
    requires
        materialized(row, T::fields(), acceptance::<T>(), outcome(r)),
        forall|i: int|
            0 <= i < T::fields().len() ==> lookup(row, #[trigger] T::fields()[i].name) == Some(
                entity.columns()[T::fields()[i].name],
            ),
    ensures
        r is Ok,
        r.unwrap().columns() == entity.columns(),
{
    let names = field_names(T::fields());
    entity.lemma_columns();
    assert forall|i: int| 0 <= i < T::fields().len() implies field_fault(
        row,
        #[trigger] T::fields()[i].name,
        acceptance::<T>(),
    ) is None by {
        let name = T::fields()[i].name;
        assert(names[i] == name);
        assert(names.to_set().contains(name));
        assert(entity.columns().contains_key(name));
    }
    lemma_round_trip(entity, row, r);
    let back = r.unwrap();
    back.lemma_columns();
    assert forall|name: Seq<char>| entity.columns().contains_key(name) implies back.columns()[name]
        == entity.columns()[name] by {
        assert(names.to_set().contains(name));
        let i = choose|i: int| 0 <= i < names.len() && names[i] == name;
        assert(T::fields()[i].name == name);
    }
    assert(back.columns() =~= entity.columns());
}

} // verus!
