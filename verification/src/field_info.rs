//! Field descriptors: the static metadata of one field of an entity.

use vstd::prelude::*;

verus! {

/// The descriptor of one field: the column it maps to, whether it is part of
/// the primary key, and whether the store assigns its value.
#[derive(Debug, Clone, PartialEq, Eq)]
pub struct FieldInfo {
    pub name: String,
    pub primary_key: bool,
    pub generated: bool,
}

/// A field descriptor as the contracts speak of it.
pub struct FieldInfoView {
    pub name: Seq<char>,
    pub primary_key: bool,
    pub generated: bool,
}

impl View for FieldInfo {
    type V = FieldInfoView;

    open spec fn view(&self) -> FieldInfoView {
        FieldInfoView { name: self.name@, primary_key: self.primary_key, generated: self.generated }
    }
}

impl DeepView for FieldInfo {
    type V = FieldInfoView;

    open spec fn deep_view(&self) -> FieldInfoView {
        self@
    }
}

/// The column names of `fields`, in order.
pub open spec fn field_names(fields: Seq<FieldInfoView>) -> Seq<Seq<char>> {
    fields.map_values(|f: FieldInfoView| f.name)
}

/// The fields whose value the store does not assign, in order: those that an
/// INSERT statement names.
pub open spec fn insertable(fields: Seq<FieldInfoView>) -> Seq<FieldInfoView> {
    fields.filter(|f: FieldInfoView| !f.generated)
}

/// How the insertable fields grow with the declaration: the empty
/// declaration has none, and one more field adds itself unless it is
/// generated.
pub proof fn lemma_insertable_step(fields: Seq<FieldInfoView>, upto: int)
    requires
        0 <= upto < fields.len(),
    ensures
        insertable(fields.take(0)) == Seq::<FieldInfoView>::empty(),
        insertable(fields.take(upto + 1)) == if fields[upto].generated {
            insertable(fields.take(upto))
        } else {
            insertable(fields.take(upto)).push(fields[upto])
        },
{
    reveal(Seq::filter);
    assert(fields.take(upto + 1) =~= fields.take(upto).push(fields[upto]));
    fields.take(upto).lemma_filter_push(fields[upto], |f: FieldInfoView| !f.generated);
}

/// A declaration without fields has no insertable field.
pub proof fn lemma_insertable_empty()
    ensures
        insertable(Seq::<FieldInfoView>::empty()) == Seq::<FieldInfoView>::empty(),
{
    reveal(Seq::filter);
}

/// None of the insertable fields is generated, so taking the insertable
/// fields twice changes nothing.
pub proof fn lemma_insertable_twice(fields: Seq<FieldInfoView>)
    ensures
        forall|i: int| 0 <= i < insertable(fields).len() ==> !(#[trigger] insertable(fields)[i]).generated,
        insertable(insertable(fields)) == insertable(fields),
    decreases fields.len(),
{
    reveal(Seq::filter);
    if fields.len() > 0 {
        let shorter = fields.drop_last();
        lemma_insertable_twice(shorter);
        if !fields.last().generated {
            insertable(shorter).lemma_filter_push(
                fields.last(),
                |f: FieldInfoView| !f.generated,
            );
        }
    }
}

impl FieldInfo {
    /// A descriptor with the given column name and flags.
    pub fn new(name: &str, primary_key: bool, generated: bool) -> (info: FieldInfo)
        ensures
            info@ == (FieldInfoView { name: name@, primary_key, generated }),
    {
        FieldInfo { name: String::from_str(name), primary_key, generated }
    }

    /// A copy of the descriptor.
    pub fn duplicate(&self) -> (info: FieldInfo)
        ensures
            info@ == self@,
    {
        FieldInfo {
            name: self.name.clone(),
            primary_key: self.primary_key,
            generated: self.generated,
        }
    }
}

} // verus!
