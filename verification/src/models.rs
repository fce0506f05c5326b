//! A mapped record type: a scale, known by its serial number.

use crate::entity::{acceptance, field_fault, scalars, ColumnMap, Entity};
use crate::field_info::{field_names, FieldInfo, FieldInfoView};
use crate::row::{lookup, ConversionError, Row};
use crate::statement::{converts, lemma_materialized_all, materialized_all};
use crate::value::{ParamRef, Scalar};
use vstd::hash_map::StringHashMap;
use vstd::prelude::*;

verus! {

/// A scale. The store assigns `id`, the primary key, when the record is
/// inserted.
#[derive(Debug, Clone, PartialEq, Eq)]
pub struct Scale {
    pub id: i64,
    pub serial: String,
}

impl Entity for Scale {
    open spec fn table() -> Seq<char> {
        "Scale"@
    }

    open spec fn fields() -> Seq<FieldInfoView> {
        seq![
            FieldInfoView { name: "id"@, primary_key: true, generated: true },
            FieldInfoView { name: "serial"@, primary_key: false, generated: false },
        ]
    }

    open spec fn columns(&self) -> Map<Seq<char>, Scalar> {
        map!["id"@ => Scalar::Int8(self.id), "serial"@ => Scalar::Text(self.serial@)]
    }

    open spec fn accepts(name: Seq<char>, value: Scalar) -> bool {
        if name == "id"@ {
            value is Int8
        } else {
            value is Text
        }
    }

    proof fn lemma_columns(&self) {
        reveal_strlit("id");
        reveal_strlit("serial");
        assert("id"@.len() == 2);
        assert("serial"@.len() == 6);
        let names = field_names(Self::fields());
        assert(names =~= seq!["id"@, "serial"@]);
        assert(names[0] == "id"@);
        assert(names[1] == "serial"@);
        assert(self.columns().dom() =~= names.to_set()) by {
            assert forall|name: Seq<char>| names.to_set().contains(name) implies 
                self.columns().dom().contains(name) by {
                let i = choose|i: int| 0 <= i < names.len() && names[i] == name;
            }
        }
    }

    fn table_name() -> (name: &'static str) {
        "Scale"
    }

    fn field_infos() -> (infos: Vec<FieldInfo>) {
        let mut infos: Vec<FieldInfo> = Vec::new();
        infos.push(FieldInfo::new("id", true, true));
        infos.push(FieldInfo::new("serial", false, false));
        proof {
            assert(infos.deep_view() =~= Self::fields());
        }
        infos
    }

    fn from_row(row: &Row) -> (r: Result<Scale, ConversionError>) {
        let ghost accepts = |name: Seq<char>, value: Scalar| Self::accepts(name, value);
        let ghost id_fault = field_fault(row@, Self::fields()[0].name, accepts);
        let ghost serial_fault = field_fault(row@, Self::fields()[1].name, accepts);
        proof {
            reveal_strlit("id");
            reveal_strlit("serial");
            assert("id"@.len() == 2);
            assert("serial"@.len() == 6);
        }
        let id = match row.get_int8("id") {
            Err(error) => {
                assert(id_fault == Some(error@));
                return Err(error);
            },
            Ok(id) => id,
        };
        assert(id_fault is None);
        let serial = match row.get_text("serial") {
            Err(error) => {
                assert(serial_fault == Some(error@));
                return Err(error);
            },
            Ok(serial) => serial,
        };
        Ok(Scale { id, serial })
    }

    fn to_map(&self) -> (map: ColumnMap<'_>) {
        let mut map: ColumnMap<'_> = StringHashMap::new();
        map.insert(String::from_str("id"), ParamRef::Int8(&self.id));
        map.insert(String::from_str("serial"), ParamRef::Text(self.serial.as_str()));
        proof {
            assert(scalars(map@) =~= self.columns());
        }
        map
    }
}

/// The key that a row holds for a scale, if it holds one.
pub open spec fn row_id(row: Row) -> Option<i64> {
    match lookup(row@, "id"@) {
        Some(Scalar::Int8(id)) => Some(id),
        _ => None,
    }
}

/// The serial number that a row holds for a scale, if it holds one.
pub open spec fn row_serial(row: Row) -> Option<Seq<char>> {
    match lookup(row@, "serial"@) {
        Some(Scalar::Text(serial)) => Some(serial),
        _ => None,
    }
}

/// Rows that each hold a key and a serial number turn into as many scales,
/// in the order of the rows; each scale has the key and the serial number of
/// its row. So the keys are distinct where those of the rows are, none is
/// zero where none of the rows' is, and the serial numbers are those of the
/// rows, each as often as it occurs there.
pub proof fn lemma_scales_of_rows(rows: Seq<Row>, r: Result<Vec<Scale>, ConversionError>)
    requires
        materialized_all::<Scale>(rows, r),
        forall|k: int|
            0 <= k < rows.len() ==> row_id(#[trigger] rows[k]) is Some && row_serial(
                rows[k],
            ) is Some,
    ensures
        r is Ok,
        r.unwrap()@.len() == rows.len(),
        forall|i: int|
            0 <= i < rows.len() ==> row_id(#[trigger] rows[i]) == Some(r.unwrap()@[i].id)
                && row_serial(rows[i]) == Some(r.unwrap()@[i].serial@),
        (forall|i: int| 0 <= i < rows.len() ==> row_id(#[trigger] rows[i]) != Some(0i64))
            ==> forall|i: int| 0 <= i < rows.len() ==> (#[trigger] r.unwrap()@[i]).id != 0,
        (forall|i: int, j: int|
            0 <= i < j < rows.len() ==> row_id(#[trigger] rows[i]) != row_id(#[trigger] rows[j]))
            ==> forall|i: int, j: int|
            0 <= i < j < rows.len() ==> (#[trigger] r.unwrap()@[i]).id != (
            #[trigger] r.unwrap()@[j]).id,
{
    reveal_strlit("id");
    reveal_strlit("serial");
    assert("id"@.len() == 2);
    assert("serial"@.len() == 6);
    let fields = Scale::fields();
    assert(fields[0].name == "id"@);
    assert(fields[1].name == "serial"@);
    assert forall|k: int| 0 <= k < rows.len() implies converts(
        (#[trigger] rows[k])@,
        fields,
        acceptance::<Scale>(),
    ) by {
        assert(row_id(rows[k]) is Some && row_serial(rows[k]) is Some);
    }
    lemma_materialized_all::<Scale>(rows, r);
    let scales = r.unwrap()@;
    assert forall|i: int| 0 <= i < rows.len() implies row_id(#[trigger] rows[i]) == Some(
        scales[i].id,
    ) && row_serial(rows[i]) == Some(scales[i].serial@) by {
        assert(lookup(rows[i]@, fields[0].name) == Some(scales[i].columns()[fields[0].name]));
        assert(lookup(rows[i]@, fields[1].name) == Some(scales[i].columns()[fields[1].name]));
    }
    if forall|i: int| 0 <= i < rows.len() ==> row_id(#[trigger] rows[i]) != Some(0i64) {
        assert forall|i: int| 0 <= i < rows.len() implies (#[trigger] scales[i]).id != 0 by {
            assert(row_id(rows[i]) == Some(scales[i].id));
        }
    }
    if forall|i: int, j: int|
        0 <= i < j < rows.len() ==> row_id(#[trigger] rows[i]) != row_id(#[trigger] rows[j]) {
        assert forall|i: int, j: int| 0 <= i < j < rows.len() implies (#[trigger] scales[i]).id
            != (#[trigger] scales[j]).id by {
            assert(row_id(rows[i]) == Some(scales[i].id));
            assert(row_id(rows[j]) == Some(scales[j].id));
        }
    }
}

} // verus!
