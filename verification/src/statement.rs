//! The statement builder: the text and the positional parameters of the
//! INSERT and SELECT statements of an entity, and the records that the rows
//! of a result turn into.

use crate::entity::{acceptance, field_fault, materialized, scalars, ColumnMap, Entity};
use crate::field_info::{
    field_names, insertable, lemma_insertable_empty, lemma_insertable_step,
    lemma_insertable_twice, FieldInfo,
    FieldInfoView,
};
use crate::row::{lookup, ConversionError, Row};
use crate::text::{decimal, decimal_text, join, joined, substitute, substituted};
use crate::value::{ParamRef, Scalar};
use vstd::pervasive::unreached;
use vstd::prelude::*;

verus! {

/// An identifier between double quotes, so that it cannot be taken for a
/// reserved word.
pub open spec fn quoted(ident: Seq<char>) -> Seq<char> {
    seq!['"'] + ident + seq!['"']
}

/// The quoted column names of `fields`, in order.
pub open spec fn quoted_names(fields: Seq<FieldInfoView>) -> Seq<Seq<char>> {
    fields.map_values(|f: FieldInfoView| quoted(f.name))
}

/// The placeholder of the parameter at `position`, counted from one.
pub open spec fn placeholder(position: nat) -> Seq<char> {
    seq!['$'] + decimal(position)
}

/// The placeholders of the first `count` parameters.
pub open spec fn placeholders(count: nat) -> Seq<Seq<char>> {
    Seq::new(count, |i: int| placeholder((i + 1) as nat))
}

/// The INSERT statement of a table: it names the fields that are not
/// generated, in declaration order, each with one positional placeholder.
pub open spec fn insert_sql(table: Seq<char>, fields: Seq<FieldInfoView>) -> Seq<char> {
    "INSERT INTO "@ + quoted(table) + " ("@ + joined(quoted_names(insertable(fields)), ", "@)
        + ") VALUES("@ + joined(placeholders(insertable(fields).len()), ", "@) + ")"@
}

/// The SELECT clause that yields every column of a table.
pub open spec fn select_sql(table: Seq<char>) -> Seq<char> {
    "SELECT "@ + quoted(table) + ".* FROM "@ + quoted(table)
}

/// The marker that a query template holds in place of the SELECT clause.
pub open spec fn select_marker() -> Seq<char> {
    "@select"@
}

/// A query template with each marker replaced by the SELECT clause of the
/// table.
pub open spec fn expanded(query: Seq<char>, table: Seq<char>) -> Seq<char> {
    substituted(query, select_marker(), select_sql(table))
}

/// Whether a column map has an entry for each field that an INSERT names.
pub open spec fn bindable(fields: Seq<FieldInfoView>, columns: Map<Seq<char>, Scalar>) -> bool {
    forall|i: int|
        0 <= i < fields.len() && !fields[i].generated ==> columns.contains_key(
            #[trigger] fields[i].name,
        )
}

/// The scalars that an INSERT binds: for each field that is not generated, in
/// declaration order, what the column map holds under the field's name.
pub open spec fn bound_values(
    fields: Seq<FieldInfoView>,
    columns: Map<Seq<char>, Scalar>,
) -> Seq<Scalar> {
    insertable(fields).map_values(|f: FieldInfoView| columns[f.name])
}

/// The scalars that a list of parameters refers to.
pub open spec fn param_scalars<'a>(params: Seq<ParamRef<'a>>) -> Seq<Scalar> {
    params.map_values(|param: ParamRef<'a>| param@)
}

/// Whether a row fills every field of `fields`.
pub open spec fn converts(
    row: Seq<(Seq<char>, Scalar)>,
    fields: Seq<FieldInfoView>,
    accepts: spec_fn(Seq<char>, Scalar) -> bool,
) -> bool {
    forall|i: int|
        0 <= i < fields.len() ==> #[trigger] field_fault(row, fields[i].name, accepts) is None
}

/// A quoted identifier is the identifier itself between two double quotes,
/// whatever it holds: a reserved word is quoted like any other name.
pub proof fn lemma_quoted(ident: Seq<char>)
    ensures
        quoted(ident).len() == ident.len() + 2,
        quoted(ident).first() == '"',
        quoted(ident).last() == '"',
        quoted(ident).subrange(1, ident.len() as int + 1) == ident,
{
    assert(quoted(ident).subrange(1, ident.len() as int + 1) =~= ident);
}

/// Generated fields leave no trace in the INSERT statement: the statement of
/// a declaration is that of its fields that are not generated, and it has
/// one column name and one placeholder for each of them.
pub proof fn lemma_generated_excluded(table: Seq<char>, fields: Seq<FieldInfoView>)
    ensures
        insert_sql(table, fields) == insert_sql(table, insertable(fields)),
        quoted_names(insertable(fields)).len() == insertable(fields).len(),
        placeholders(insertable(fields).len()).len() == insertable(fields).len(),
        forall|i: int|
            0 <= i < insertable(fields).len() ==> !(#[trigger] insertable(fields)[i]).generated,
{
    lemma_insertable_twice(fields);
}

/// Whether `r` is what turning `rows` into records of `T` yields: one record
/// for each row, in the order of the rows, each holding what its row holds;
/// or the fault of the first row that does not turn into a record.
pub open spec fn materialized_all<T: Entity>(
    rows: Seq<Row>,
    r: Result<Vec<T>, ConversionError>,
) -> bool {
    match r {
        Ok(records) => {
            &&& records@.len() == rows.len()
            &&& forall|i: int|
                0 <= i < rows.len() ==> materialized(
                    (#[trigger] rows[i])@,
                    T::fields(),
                    acceptance::<T>(),
                    Ok(records@[i].columns()),
                )
        },
        Err(error) => exists|i: int|
            {
                &&& 0 <= i < rows.len()
                &&& materialized(
                    (#[trigger] rows[i])@,
                    T::fields(),
                    acceptance::<T>(),
                    Err(error@),
                )
                &&& forall|k: int|
                    0 <= k < i ==> converts((#[trigger] rows[k])@, T::fields(), acceptance::<T>())
            },
    }
}

/// Rows that each fill every field turn into as many records as there are
/// rows, in their order, and each record holds in every field the scalar
/// that its row holds in the column of that name.
pub proof fn lemma_materialized_all<T: Entity>(rows: Seq<Row>, r: Result<Vec<T>, ConversionError>)
    requires
        materialized_all::<T>(rows, r),
        forall|k: int|
            0 <= k < rows.len() ==> converts((#[trigger] rows[k])@, T::fields(), acceptance::<T>()),
    ensures
        r is Ok,
        r.unwrap()@.len() == rows.len(),
        forall|i: int, j: int|
            0 <= i < rows.len() && 0 <= j < T::fields().len() ==> lookup(
                (#[trigger] rows[i])@,
                (#[trigger] T::fields()[j]).name,
            ) == Some(r.unwrap()@[i].columns()[T::fields()[j].name]),
{
    if let Err(error) = r {
        let i = choose|i: int|
            {
                &&& 0 <= i < rows.len()
                &&& materialized(
                    (#[trigger] rows[i])@,
                    T::fields(),
                    acceptance::<T>(),
                    Err(error@),
                )
            };
        assert(converts(rows[i]@, T::fields(), acceptance::<T>()));
    }
}

/// A record that was inserted and is queried back by its key comes back
/// equal in every field whose value the store does not assign, and with the
/// key that the store gave it. If the result of the query is one row that
/// holds, for each field that is not generated, the scalar that the record's
/// column map gave, and for each other field a scalar that the field can
/// take, then the rows turn into one record, which holds in each field that is
/// not generated what `entity` holds there, and in every field what the row
/// holds.
pub proof fn lemma_query_round_trip<T: Entity>(
    entity: T,
    rows: Seq<Row>,
    r: Result<Vec<T>, ConversionError>,
)
    requires
        materialized_all::<T>(rows, r),
        rows.len() == 1,
        forall|j: int|
            0 <= j < T::fields().len() && !T::fields()[j].generated ==> lookup(
                rows[0]@,
                #[trigger] T::fields()[j].name,
            ) == Some(entity.columns()[T::fields()[j].name]),
        forall|j: int|
            0 <= j < T::fields().len() && T::fields()[j].generated ==> field_fault(
                rows[0]@,
                #[trigger] T::fields()[j].name,
                acceptance::<T>(),
            ) is None,
    ensures
        r is Ok,
        r.unwrap()@.len() == 1,
        forall|j: int|
            0 <= j < T::fields().len() && !T::fields()[j].generated ==> r.unwrap()@[0].columns()[
            #[trigger] T::fields()[j].name] == entity.columns()[T::fields()[j].name],
        forall|j: int|
            0 <= j < T::fields().len() ==> lookup(rows[0]@, #[trigger] T::fields()[j].name) == Some(
                r.unwrap()@[0].columns()[T::fields()[j].name],
            ),
{
    entity.lemma_columns();
    let fields = T::fields();
    assert forall|j: int| 0 <= j < fields.len() implies #[trigger] field_fault(
        rows[0]@,
        fields[j].name,
        acceptance::<T>(),
    ) is None by {
        if !fields[j].generated {
            let name = fields[j].name;
            assert(field_names(fields)[j] == name);
            assert(field_names(fields).to_set().contains(name));
            assert(entity.columns().contains_key(name));
        }
    }
    assert(converts(rows[0]@, fields, acceptance::<T>()));
    lemma_materialized_all::<T>(rows, r);
}

/// A statement that is ready to be executed: its text, and the values of its
/// positional parameters in order.
#[derive(Debug, Clone, PartialEq, Eq)]
pub struct Statement<'a> {
    pub sql: String,
    pub params: Vec<ParamRef<'a>>,
}

/// Wraps an identifier in double quotes.
pub fn quote_sql_ident(i: &str) -> (text: String)
    ensures
        text@ == quoted(i@),
{
    let mut text = String::from_str("\"");
    text.append(i);
    text.append("\"");
    proof {
        reveal_strlit("\"");
        assert(text@ =~= quoted(i@));
    }
    text
}

/// The placeholder of the parameter at `position`.
fn placeholder_text(position: usize) -> (text: String)
    ensures
        text@ == placeholder(position as nat),
{
    let mut text = String::from_str("$");
    let digits = decimal_text(position);
    text.append(digits.as_str());
    proof {
        reveal_strlit("$");
        assert(text@ =~= placeholder(position as nat));
    }
    text
}

/// The text of the INSERT statement of a table with the given fields.
pub fn insert_text(table: &str, fields: &Vec<FieldInfo>) -> (text: String)
    ensures
        text@ == insert_sql(table@, fields.deep_view()),
{
    let ghost all = fields.deep_view();
    let mut names: Vec<String> = Vec::new();
    let mut i: usize = 0;
    proof {
        lemma_insertable_empty();
        assert(all.take(0) =~= Seq::<FieldInfoView>::empty());
        assert(names.deep_view() =~= quoted_names(insertable(all.take(0))));
    }
    while i < fields.len()
        invariant
            i <= fields.len(),
            all == fields.deep_view(),
            names.deep_view() == quoted_names(insertable(all.take(i as int))),
            names.len() == insertable(all.take(i as int)).len(),
        decreases fields.len() - i,
    {
        proof {
            lemma_insertable_step(all, i as int);
            assert(all[i as int] == fields@[i as int]@);
        }
        if !fields[i].generated {
            let ghost before = names.deep_view();
            let name = quote_sql_ident(fields[i].name.as_str());
            names.push(name);
            proof {
                assert(names.deep_view() =~= before.push(quoted(fields@[i as int].name@)));
                assert(quoted_names(insertable(all.take(i + 1))) =~= quoted_names(
                    insertable(all.take(i as int)),
                ).push(quoted(fields@[i as int].name@)));
            }
        }
        i += 1;
    }
    proof {
        assert(all.take(i as int) =~= all);
    }
    let mut marks: Vec<String> = Vec::new();
    let mut k: usize = 0;
    proof {
        assert(marks.deep_view() =~= placeholders(0));
    }
    while k < names.len()
        invariant
            k <= names.len(),
            marks.deep_view() == placeholders(k as nat),
        decreases names.len() - k,
    {
        let ghost before = marks.deep_view();
        let mark = placeholder_text(k + 1);
        marks.push(mark);
        proof {
            assert(marks.deep_view() =~= before.push(placeholder((k + 1) as nat)));
            assert(placeholders((k + 1) as nat) =~= placeholders(k as nat).push(
                placeholder((k + 1) as nat),
            ));
        }
        k += 1;
    }
    proof {
        reveal_strlit(", ");
        assert(", "@.len() == 2);
    }
    let columns = join(&names, ", ");
    let values = join(&marks, ", ");
    let quoted_table = quote_sql_ident(table);
    let mut text = String::from_str("INSERT INTO ");
    text.append(quoted_table.as_str());
    text.append(" (");
    text.append(columns.as_str());
    text.append(") VALUES(");
    text.append(values.as_str());
    text.append(")");
    text
}

/// The text of the INSERT statement of an entity type.
pub fn build_insert<T: Entity>() -> (text: String)
    ensures
        text@ == insert_sql(T::table(), T::fields()),
{
    let fields = T::field_infos();
    insert_text(T::table_name(), &fields)
}

/// The values that an INSERT binds, taken from a column map: one for each
/// field that is not generated, in declaration order. `None` if the map lacks
/// one of them.
pub fn bind<'a>(fields: &Vec<FieldInfo>, map: &ColumnMap<'a>) -> (r: Option<Vec<ParamRef<'a>>>)
    ensures
        r is Some <==> bindable(fields.deep_view(), scalars(map@)),
        r matches Some(params) ==> param_scalars(params@) == bound_values(
            fields.deep_view(),
            scalars(map@),
        ),
{
    let ghost all = fields.deep_view();
    let ghost columns = scalars(map@);
    let mut params: Vec<ParamRef<'a>> = Vec::new();
    let mut i: usize = 0;
    proof {
        lemma_insertable_empty();
        assert(all.take(0) =~= Seq::<FieldInfoView>::empty());
        assert(param_scalars(params@) =~= bound_values(all.take(0), columns));
    }
    while i < fields.len()
        invariant
            i <= fields.len(),
            all == fields.deep_view(),
            columns == scalars(map@),
            bindable(all.take(i as int), columns),
            param_scalars(params@) == bound_values(all.take(i as int), columns),
        decreases fields.len() - i,
    {
        proof {
            lemma_insertable_step(all, i as int);
            assert(all[i as int] == fields@[i as int]@);
        }
        if !fields[i].generated {
            match map.get(fields[i].name.as_str()) {
                None => {
                    proof {
                        assert(!columns.contains_key(all[i as int].name));
                    }
                    return None;
                },
                Some(param) => {
                    let ghost before = param_scalars(params@);
                    params.push(*param);
                    proof {
                        assert(param_scalars(params@) =~= before.push(param@));
                        assert(bound_values(all.take(i + 1), columns) =~= bound_values(
                            all.take(i as int),
                            columns,
                        ).push(columns[fields@[i as int].name@]));
                    }
                },
            }
        }
        proof {
            assert forall|k: int|
                0 <= k < all.take(i + 1).len() && !all.take(i + 1)[k].generated implies columns.contains_key(
                #[trigger] all.take(i + 1)[k].name,
            ) by {
                if k < i {
                    assert(all.take(i as int)[k] == all.take(i + 1)[k]);
                }
            }
        }
        i += 1;
    }
    proof {
        assert(all.take(i as int) =~= all);
    }
    Some(params)
}

/// The INSERT statement of a record: the text names the fields that are not
/// generated, and the parameters are the record's values of those fields, in
/// the same order.
pub fn insert_statement<'a, T: Entity>(entity: &'a T) -> (statement: Statement<'a>)
    ensures
        statement.sql@ == insert_sql(T::table(), T::fields()),
        param_scalars(statement.params@) == bound_values(T::fields(), entity.columns()),
        statement.params@.len() == insertable(T::fields()).len(),
{
    let fields = T::field_infos();
    let map = entity.to_map();
    proof {
        entity.lemma_columns();
        let names = field_names(T::fields());
        assert forall|i: int|
            0 <= i < T::fields().len() implies entity.columns().contains_key(
            #[trigger] T::fields()[i].name,
        ) by {
            assert(names[i] == T::fields()[i].name);
            assert(names.to_set().contains(names[i]));
        }
    }
    let params = match bind(&fields, &map) {
        Some(params) => params,
        None => unreached(),
    };
    let sql = insert_text(T::table_name(), &fields);
    proof {
        assert(param_scalars(params@).len() == params@.len());
    }
    Statement { sql, params }
}

/// A query template with each `@select` marker replaced by the SELECT clause
/// of the table.
pub fn expand_select(query: &str, table: &str) -> (text: String)
    ensures
        text@ == expanded(query@, table@),
{
    let quoted_table = quote_sql_ident(table);
    let mut clause = String::from_str("SELECT ");
    clause.append(quoted_table.as_str());
    clause.append(".* FROM ");
    clause.append(quoted_table.as_str());
    substitute(query, "@select", clause.as_str())
}

/// The statement of a query for records of an entity type: the template with
/// the marker expanded for the type's table, and the caller's parameters as
/// they are.
pub fn query_statement<'a, T: Entity>(query: &str, params: Vec<ParamRef<'a>>) -> (statement:
    Statement<'a>)
    ensures
        statement.sql@ == expanded(query@, T::table()),
        statement.params@ == params@,
{
    let sql = expand_select(query, T::table_name());
    Statement { sql, params }
}

/// Turns the rows of a result into records, in the order of the rows. Fails
/// with the fault of the first row that does not turn into a record; no row
/// is left out.
pub fn materialize<T: Entity>(rows: &Vec<Row>) -> (r: Result<Vec<T>, ConversionError>)
    ensures
        materialized_all::<T>(rows@, r),
{
    let mut records: Vec<T> = Vec::new();
    let mut i: usize = 0;
    while i < rows.len()
        invariant
            i <= rows.len(),
            records@.len() == i,
            forall|k: int|
                0 <= k < i ==> materialized(
                    (#[trigger] rows@[k])@,
                    T::fields(),
                    acceptance::<T>(),
                    Ok(records@[k].columns()),
                ),
            forall|k: int|
                0 <= k < i ==> converts((#[trigger] rows@[k])@, T::fields(), acceptance::<T>()),
        decreases rows.len() - i,
    {
        match T::from_row(&rows[i]) {
            Err(error) => {
                return Err(error);
            },
            Ok(record) => {
                proof {
                    record.lemma_columns();
                    let names = field_names(T::fields());
                    assert forall|j: int| 0 <= j < T::fields().len() implies #[trigger] field_fault(
                        rows@[i as int]@,
                        T::fields()[j].name,
                        acceptance::<T>(),
                    ) is None by {
                        assert(names[j] == T::fields()[j].name);
                        assert(names.to_set().contains(names[j]));
                    }
                }
                records.push(record);
            },
        }
        i += 1;
    }
    Ok(records)
}

} // verus!
