//! Entity descriptors: the mapping metadata of one record type, computed once
//! from its declaration, and the conversions between rows, records and column
//! maps that follow from it.

use crate::entity::{scalars, ColumnMap};
use crate::field_info::{field_names, FieldInfo, FieldInfoView};
use crate::row::{lookup, ConversionError, ConversionFault, Row};
use crate::value::{Scalar, SqlValue};
use vstd::hash_map::StringHashMap;
use vstd::prelude::*;

verus! {

/// The mapping metadata of one record type.
#[derive(Debug, Clone, PartialEq, Eq)]
pub struct EntityDescriptor {
    /// The name of the record type.
    pub entity_name: String,
    /// The table that the type is mapped to.
    pub table_name: String,
    /// The field descriptors, in declaration order.
    pub field_infos: Vec<FieldInfo>,
}

/// An entity descriptor as the contracts speak of it.
pub struct EntityView {
    pub entity_name: Seq<char>,
    pub table_name: Seq<char>,
    pub fields: Seq<FieldInfoView>,
}

impl View for EntityDescriptor {
    type V = EntityView;

    open spec fn view(&self) -> EntityView {
        EntityView {
            entity_name: self.entity_name@,
            table_name: self.table_name@,
            fields: self.field_infos.deep_view(),
        }
    }
}

/// A record of a described type: one scalar for each field, in declaration
/// order.
#[derive(Debug, Clone, PartialEq, Eq)]
pub struct Record {
    pub values: Vec<SqlValue>,
}

impl View for Record {
    type V = Seq<Scalar>;

    open spec fn view(&self) -> Seq<Scalar> {
        self.values@.map_values(|value: SqlValue| value@)
    }
}

/// For each name of `names`, in order, the scalar of the row's column of
/// that name; or the first name for which the row has no column.
pub open spec fn row_values(row: Seq<(Seq<char>, Scalar)>, names: Seq<Seq<char>>) -> Result<
    Seq<Scalar>,
    ConversionFault,
>
    decreases names.len(),
{
    if names.len() == 0 {
        Ok(Seq::empty())
    } else {
        match row_values(row, names.drop_last()) {
            Err(fault) => Err(fault),
            Ok(values) => match lookup(row, names.last()) {
                None => Err(ConversionFault::MissingColumn(names.last())),
                Some(value) => Ok(values.push(value)),
            },
        }
    }
}

/// The map that takes each name of `names` to the scalar at its position in
/// `values`; of two equal names the later one counts.
pub open spec fn column_map(names: Seq<Seq<char>>, values: Seq<Scalar>) -> Map<Seq<char>, Scalar>
    decreases names.len(),
{
    if names.len() == 0 {
        Map::empty()
    } else {
        column_map(names.drop_last(), values.drop_last()).insert(names.last(), values.last())
    }
}

/// A missing column found for a prefix of the names is the fault of the
/// whole.
proof fn lemma_row_values_prefix(row: Seq<(Seq<char>, Scalar)>, names: Seq<Seq<char>>, upto: int)
    requires
        0 <= upto <= names.len(),
        row_values(row, names.take(upto)) is Err,
    ensures
        row_values(row, names) == row_values(row, names.take(upto)),
    decreases names.len() - upto,
{
    if upto < names.len() {
        assert(names.take(upto + 1).drop_last() =~= names.take(upto));
        lemma_row_values_prefix(row, names, upto + 1);
    } else {
        assert(names.take(upto) =~= names);
    }
}

/// The column map has an entry for each name and for nothing else, and where
/// no name occurs twice it takes each name to the scalar at its position.
pub proof fn lemma_column_map(names: Seq<Seq<char>>, values: Seq<Scalar>)
    requires
        values.len() == names.len(),
    ensures
        column_map(names, values).dom() == names.to_set(),
        names.no_duplicates() ==> forall|i: int|
            0 <= i < names.len() ==> column_map(names, values)[#[trigger] names[i]] == values[i],
    decreases names.len(),
{
    if names.len() == 0 {
        assert(column_map(names, values).dom() =~= names.to_set());
    } else {
        let shorter = names.drop_last();
        lemma_column_map(shorter, values.drop_last());
        assert(column_map(names, values).dom() =~= names.to_set()) by {
            assert forall|name: Seq<char>| names.to_set().contains(name) implies column_map(
                names,
                values,
            ).dom().contains(name) by {
                let i = choose|i: int| 0 <= i < names.len() && names[i] == name;
                if i < shorter.len() {
                    assert(shorter[i] == name);
                    assert(shorter.to_set().contains(name));
                }
            }
            assert forall|name: Seq<char>|
                column_map(names, values).dom().contains(name) implies names.to_set().contains(
                name,
            ) by {
                if name == names.last() {
                    assert(names[names.len() - 1] == name);
                } else {
                    assert(shorter.to_set().contains(name));
                    let i = choose|i: int| 0 <= i < shorter.len() && shorter[i] == name;
                    assert(names[i] == name);
                }
            }
        }
        if names.no_duplicates() {
            assert forall|i: int| 0 <= i < names.len() implies column_map(names, values)[
            #[trigger] names[i]] == values[i] by {
                if i < shorter.len() {
                    assert(shorter[i] == names[i]);
                    assert(names[i] != names[names.len() - 1]);
                    assert(values.drop_last()[i] == values[i]);
                }
            }
        }
    }
}

/// A record that went through the store comes back equal in every field
/// whose value the store does not assign. If no two fields share a name and
/// a row holds, for each field that is not generated, the scalar that the
/// record's column map gave, and some column for each other field, then the
/// row turns into a record that holds in each field that is not generated
/// what the first record holds there.
pub proof fn lemma_record_round_trip(
    fields: Seq<FieldInfoView>,
    values: Seq<Scalar>,
    row: Seq<(Seq<char>, Scalar)>,
)
    requires
        field_names(fields).no_duplicates(),
        values.len() == fields.len(),
        forall|i: int|
            0 <= i < fields.len() && !fields[i].generated ==> lookup(
                row,
                #[trigger] fields[i].name,
            ) == Some(column_map(field_names(fields), values)[fields[i].name]),
        forall|i: int|
            0 <= i < fields.len() && fields[i].generated ==> lookup(
                row,
                #[trigger] fields[i].name,
            ) is Some,
    ensures
        row_values(row, field_names(fields)) is Ok,
        (row_values(row, field_names(fields))->Ok_0).len() == fields.len(),
        forall|i: int|
            0 <= i < fields.len() && !fields[i].generated ==> (row_values(
                row,
                field_names(fields),
            )->Ok_0)[i] == #[trigger] values[i],
{
    let names = field_names(fields);
    lemma_column_map(names, values);
    assert forall|i: int| 0 <= i < names.len() implies lookup(row, #[trigger] names[i]) is Some by {
        assert(names[i] == fields[i].name);
    }
    lemma_row_values(row, names);
    assert forall|i: int| 0 <= i < fields.len() && !fields[i].generated implies (row_values(
        row,
        names,
    )->Ok_0)[i] == #[trigger] values[i] by {
        assert(names[i] == fields[i].name);
    }
}

/// Turning a row into a record undoes taking the record's column map: if no
/// two fields share a name and a row holds, for every field, the scalar that
/// the record's column map gave under the field's name, then the row turns
/// into the same record.
pub proof fn lemma_record_left_inverse(
    names: Seq<Seq<char>>,
    values: Seq<Scalar>,
    row: Seq<(Seq<char>, Scalar)>,
)
    requires
        names.no_duplicates(),
        values.len() == names.len(),
        forall|i: int|
            0 <= i < names.len() ==> lookup(row, #[trigger] names[i]) == Some(
                column_map(names, values)[names[i]],
            ),
    ensures
        row_values(row, names) == Ok::<Seq<Scalar>, ConversionFault>(values),
{
    lemma_column_map(names, values);
    lemma_row_values(row, names);
    let back = row_values(row, names)->Ok_0;
    assert forall|i: int| 0 <= i < names.len() implies back[i] == values[i] by {
        assert(lookup(row, names[i]) == Some(back[i]));
    }
    assert(back =~= values);
}

/// Where the row has a column for each name, `row_values` holds the scalar
/// of each, in order.
pub proof fn lemma_row_values(row: Seq<(Seq<char>, Scalar)>, names: Seq<Seq<char>>)
    requires
        forall|i: int| 0 <= i < names.len() ==> lookup(row, #[trigger] names[i]) is Some,
    ensures
        row_values(row, names) is Ok,
        (row_values(row, names)->Ok_0).len() == names.len(),
        forall|i: int|
            0 <= i < names.len() ==> lookup(row, #[trigger] names[i]) == Some(
                (row_values(row, names)->Ok_0)[i],
            ),
    decreases names.len(),
{
    if names.len() > 0 {
        let shorter = names.drop_last();
        assert forall|i: int| 0 <= i < shorter.len() implies lookup(
            row,
            #[trigger] shorter[i],
        ) is Some by {
            assert(shorter[i] == names[i]);
        }
        lemma_row_values(row, shorter);
        assert(names.last() == names[names.len() - 1]);
        assert forall|i: int| 0 <= i < names.len() implies lookup(row, #[trigger] names[i])
            == Some((row_values(row, names)->Ok_0)[i]) by {
            if i < shorter.len() {
                assert(shorter[i] == names[i]);
            }
        }
    }
}

impl EntityDescriptor {
    /// Builds a record from a row: each field takes the scalar of the first
    /// column of its name. Fails on the first field, in declaration order,
    /// for which the row has no column.
    pub fn from_row(&self, row: &Row) -> (r: Result<Record, ConversionError>)
        ensures
            match r {
                Ok(record) => row_values(row@, field_names(self@.fields)) == Ok::<
                    Seq<Scalar>,
                    ConversionFault,
                >(record@),
                Err(error) => row_values(row@, field_names(self@.fields)) == Err::<
                    Seq<Scalar>,
                    ConversionFault,
                >(error@),
            },
    {
        let ghost names = field_names(self@.fields);
        let mut values: Vec<SqlValue> = Vec::new();
        let mut i: usize = 0;
        proof {
            assert(values@.map_values(|value: SqlValue| value@) =~= Seq::<Scalar>::empty());
        }
        while i < self.field_infos.len()
            invariant
                i <= self.field_infos.len(),
                names == field_names(self@.fields),
                names.len() == self.field_infos.len(),
                row_values(row@, names.take(i as int)) == Ok::<Seq<Scalar>, ConversionFault>(
                    values@.map_values(|value: SqlValue| value@),
                ),
            decreases self.field_infos.len() - i,
        {
            proof {
                assert(names.take(i + 1).drop_last() =~= names.take(i as int));
                assert(names.take(i + 1).last() == self.field_infos@[i as int].name@);
            }
            let ghost before = values@.map_values(|value: SqlValue| value@);
            match row.get(self.field_infos[i].name.as_str()) {
                None => {
                    proof {
                        lemma_row_values_prefix(row@, names, i + 1);
                    }
                    return Err(ConversionError::MissingColumn(self.field_infos[i].name.clone()));
                },
                Some(value) => {
                    values.push(value.as_param().to_value());
                    proof {
                        assert(values@.map_values(|value: SqlValue| value@) =~= before.push(
                            value@,
                        ));
                    }
                },
            }
            i += 1;
        }
        proof {
            assert(names.take(i as int) =~= names);
        }
        Ok(Record { values })
    }

    /// The column map of a record: for each field, by name, a reference to
    /// the scalar that the record holds at the field's position. `None` if
    /// the record does not hold one scalar for each field.
    pub fn to_map<'a>(&self, record: &'a Record) -> (r: Option<ColumnMap<'a>>)
        ensures
            r is Some <==> record@.len() == self@.fields.len(),
            r matches Some(map) ==> scalars(map@) == column_map(
                field_names(self@.fields),
                record@,
            ),
    {
        if record.values.len() != self.field_infos.len() {
            return None;
        }
        let ghost names = field_names(self@.fields);
        let mut map: ColumnMap<'a> = StringHashMap::new();
        let mut i: usize = 0;
        proof {
            assert(scalars(map@) =~= column_map(names.take(0), record@.take(0)));
        }
        while i < self.field_infos.len()
            invariant
                i <= self.field_infos.len(),
                record.values.len() == self.field_infos.len(),
                names == field_names(self@.fields),
                names.len() == self.field_infos.len(),
                scalars(map@) == column_map(names.take(i as int), record@.take(i as int)),
            decreases self.field_infos.len() - i,
        {
            let ghost before = map@;
            map.insert(self.field_infos[i].name.clone(), record.values[i].as_param());
            proof {
                assert(names.take(i + 1).drop_last() =~= names.take(i as int));
                assert(record@.take(i + 1).drop_last() =~= record@.take(i as int));
                assert(names.take(i + 1).last() == self.field_infos@[i as int].name@);
                assert(record@.take(i + 1).last() == record.values@[i as int]@);
                assert(scalars(map@) =~= scalars(before).insert(
                    self.field_infos@[i as int].name@,
                    record.values@[i as int]@,
                ));
            }
            i += 1;
        }
        proof {
            assert(names.take(i as int) =~= names);
            assert(record@.take(i as int) =~= record@);
        }
        Some(map)
    }
}

} // verus!
