//! Deriving an entity descriptor from a declared record type: the field
//! descriptors that the annotations ask for, in declaration order, or the
//! reason why the type cannot be mapped.

use crate::descriptor::{EntityDescriptor, EntityView};
use crate::field_info::{FieldInfo, FieldInfoView};
use crate::syntax::{
    Attribute, AttributeView, Data, DataView, DeriveInput, DeriveInputView, Field, FieldView,
    Fields, FieldsView, Meta, MetaView, NestedMeta, NestedMetaView,
};
use vstd::prelude::*;

verus! {

/// Why no entity can be derived for a declared type.
#[derive(Debug, Clone, PartialEq, Eq)]
pub enum DeriveError {
    /// A field has no name.
    UnnamedField,
    /// An annotation in the mapping scope holds an item that is no marker:
    /// the item's name.
    UnknownAttribute(String),
    /// An annotation's content is malformed.
    MalformedAttribute(String),
    /// The type is a structure, but its fields are positional or absent.
    NotNamedFields,
    /// The type is no structure.
    NotAStruct,
}

/// A derivation error as the contracts speak of it.
pub enum DeriveFault {
    UnnamedField,
    UnknownAttribute(Seq<char>),
    MalformedAttribute(Seq<char>),
    NotNamedFields,
    NotAStruct,
}

impl View for DeriveError {
    type V = DeriveFault;

    open spec fn view(&self) -> DeriveFault {
        match *self {
            DeriveError::UnnamedField => DeriveFault::UnnamedField,
            DeriveError::UnknownAttribute(word) => DeriveFault::UnknownAttribute(word@),
            DeriveError::MalformedAttribute(reason) => DeriveFault::MalformedAttribute(reason@),
            DeriveError::NotNamedFields => DeriveFault::NotNamedFields,
            DeriveError::NotAStruct => DeriveFault::NotAStruct,
        }
    }
}

/// The text of a derivation error.
pub open spec fn derive_message(fault: DeriveFault) -> Seq<char> {
    match fault {
        DeriveFault::UnnamedField => "expected a named field"@,
        DeriveFault::UnknownAttribute(word) => "unknown attribute: "@ + word,
        DeriveFault::MalformedAttribute(reason) => reason,
        DeriveFault::NotNamedFields => "derive(Entity) can only be applied to structs with named fields"@,
        DeriveFault::NotAStruct => "derive(Entity) can only be applied to structs"@,
    }
}

/// The name of the annotation scope that holds the mapping markers.
pub open spec fn attribute_scope() -> Seq<char> {
    "orm"@
}

/// The marker of a field whose value the store assigns.
pub open spec fn generated_marker() -> Seq<char> {
    "generated"@
}

/// The marker of a field that is part of the primary key.
pub open spec fn primary_key_marker() -> Seq<char> {
    "primary_key"@
}

/// Whether `word` is one of the markers that the mapping scope accepts.
pub open spec fn is_marker(word: Seq<char>) -> bool {
    word == generated_marker() || word == primary_key_marker()
}

/// The argument list of an annotation in the mapping scope; empty for any
/// other annotation.
pub open spec fn scoped_items(attr: AttributeView) -> Seq<NestedMetaView> {
    match attr {
        AttributeView::Parsed(MetaView::List { ident, nested }) => if ident == attribute_scope() {
            nested
        } else {
            Seq::empty()
        },
        _ => Seq::empty(),
    }
}

/// The name under which an item of an argument list is reported: the word,
/// the name of a list or of a name-value pair, the text of a literal.
pub open spec fn item_name(item: NestedMetaView) -> Seq<char> {
    match item {
        NestedMetaView::Word(word) => word,
        NestedMetaView::List(word) => word,
        NestedMetaView::NameValue(name) => name,
        NestedMetaView::Literal(text) => text,
    }
}

/// Whether an item is one of the markers, written as a bare word. Nothing
/// else is accepted in the mapping scope.
pub open spec fn is_marker_item(item: NestedMetaView) -> bool {
    item matches NestedMetaView::Word(word) && is_marker(word)
}

/// The name of the first item of `items` that is no marker.
pub open spec fn first_unknown(items: Seq<NestedMetaView>) -> Option<Seq<char>>
    decreases items.len(),
{
    if items.len() == 0 {
        None
    } else {
        match first_unknown(items.drop_last()) {
            Some(word) => Some(word),
            None => if is_marker_item(items.last()) {
                None
            } else {
                Some(item_name(items.last()))
            },
        }
    }
}

/// What is wrong with one annotation: its content is malformed, or it lies
/// in the mapping scope and holds an item that is no marker.
pub open spec fn attribute_fault(attr: AttributeView) -> Option<DeriveFault> {
    match attr {
        AttributeView::Malformed(reason) => Some(DeriveFault::MalformedAttribute(reason)),
        _ => match first_unknown(scoped_items(attr)) {
            Some(word) => Some(DeriveFault::UnknownAttribute(word)),
            None => None,
        },
    }
}

/// The fault of the first annotation that has one.
pub open spec fn first_fault(attrs: Seq<AttributeView>) -> Option<DeriveFault>
    decreases attrs.len(),
{
    if attrs.len() == 0 {
        None
    } else {
        match first_fault(attrs.drop_last()) {
            Some(fault) => Some(fault),
            None => attribute_fault(attrs.last()),
        }
    }
}

/// Whether the annotation lies in the mapping scope and holds `marker`.
pub open spec fn sets(attr: AttributeView, marker: Seq<char>) -> bool {
    scoped_items(attr).contains(NestedMetaView::Word(marker))
}

/// Whether some annotation of `attrs` sets `marker`.
pub open spec fn marked(attrs: Seq<AttributeView>, marker: Seq<char>) -> bool {
    exists|i: int| 0 <= i < attrs.len() && #[trigger] sets(attrs[i], marker)
}

/// The descriptor of one declared field, or the first thing wrong with the
/// declaration: a missing name comes before any fault of an annotation.
pub open spec fn extracted(field: FieldView) -> Result<FieldInfoView, DeriveFault> {
    match field.ident {
        None => Err(DeriveFault::UnnamedField),
        Some(name) => match first_fault(field.attrs) {
            Some(fault) => Err(fault),
            None => Ok(
                FieldInfoView {
                    name,
                    primary_key: marked(field.attrs, primary_key_marker()),
                    generated: marked(field.attrs, generated_marker()),
                },
            ),
        },
    }
}

/// The descriptors of `fields`, in declaration order, or the fault of the
/// first field that has one.
pub open spec fn extracted_all(fields: Seq<FieldView>) -> Result<Seq<FieldInfoView>, DeriveFault>
    decreases fields.len(),
{
    if fields.len() == 0 {
        Ok(Seq::empty())
    } else {
        match extracted_all(fields.drop_last()) {
            Err(fault) => Err(fault),
            Ok(infos) => match extracted(fields.last()) {
                Err(fault) => Err(fault),
                Ok(info) => Ok(infos.push(info)),
            },
        }
    }
}

/// The descriptor of a declared type, or the reason why it has none. Only a
/// structure with named fields has one; its table is named after the type,
/// and its field descriptors stand in declaration order.
pub open spec fn derived(input: DeriveInputView) -> Result<EntityView, DeriveFault> {
    match input.data {
        DataView::Struct(FieldsView::Named(fields)) => match extracted_all(fields) {
            Ok(infos) => Ok(
                EntityView { entity_name: input.ident, table_name: input.ident, fields: infos },
            ),
            Err(fault) => Err(fault),
        },
        DataView::Struct(_) => Err(DeriveFault::NotNamedFields),
        _ => Err(DeriveFault::NotAStruct),
    }
}

impl DeriveError {
    /// The error as a line of text.
    pub fn message(&self) -> (text: String)
        ensures
            text@ == derive_message(self@),
    {
        match self {
            DeriveError::UnnamedField => String::from_str("expected a named field"),
            DeriveError::UnknownAttribute(word) => {
                let mut text = String::from_str("unknown attribute: ");
                text.append(word.as_str());
                text
            },
            DeriveError::MalformedAttribute(reason) => reason.clone(),
            DeriveError::NotNamedFields => String::from_str(
                "derive(Entity) can only be applied to structs with named fields",
            ),
            DeriveError::NotAStruct => String::from_str(
                "derive(Entity) can only be applied to structs",
            ),
        }
    }
}

/// Whether `text` reads `literal`.
fn reads(text: &String, literal: &str) -> (same: bool)
    ensures
        same == (text@ == literal@),
{
    let other = String::from_str(literal);
    *text == other
}

/// The two markers are different words.
pub proof fn lemma_markers_differ()
    ensures
        generated_marker() != primary_key_marker(),
        is_marker(generated_marker()),
        is_marker(primary_key_marker()),
{
    reveal_strlit("generated");
    reveal_strlit("primary_key");
    assert("generated"@.len() == 9);
    assert("primary_key"@.len() == 11);
}

/// What stepping over one more item does to `contains`.
proof fn lemma_contains_step<T>(items: Seq<T>, upto: int, wanted: T)
    requires
        0 <= upto < items.len(),
    ensures
        items.take(upto + 1).contains(wanted) == (items.take(upto).contains(wanted) || items[upto]
            == wanted),
{
    let shorter = items.take(upto);
    let longer = items.take(upto + 1);
    if shorter.contains(wanted) {
        let i = choose|i: int| 0 <= i < shorter.len() && shorter[i] == wanted;
        assert(longer[i] == wanted);
    }
    if items[upto] == wanted {
        assert(longer[upto] == wanted);
    }
    if longer.contains(wanted) {
        let i = choose|i: int| 0 <= i < longer.len() && longer[i] == wanted;
        if i < upto {
            assert(shorter[i] == wanted);
        }
    }
}

/// What stepping over one more annotation does to `marked`.
proof fn lemma_marked_step(attrs: Seq<AttributeView>, upto: int, marker: Seq<char>)
    requires
        0 <= upto < attrs.len(),
    ensures
        marked(attrs.take(upto + 1), marker) == (marked(attrs.take(upto), marker) || sets(
            attrs[upto],
            marker,
        )),
{
    let shorter = attrs.take(upto);
    let longer = attrs.take(upto + 1);
    if marked(shorter, marker) {
        let i = choose|i: int| 0 <= i < shorter.len() && #[trigger] sets(shorter[i], marker);
        assert(sets(longer[i], marker));
    }
    if sets(attrs[upto], marker) {
        assert(sets(longer[upto], marker));
    }
    if marked(longer, marker) {
        let i = choose|i: int| 0 <= i < longer.len() && #[trigger] sets(longer[i], marker);
        if i < upto {
            assert(sets(shorter[i], marker));
        }
    }
}

/// The markers that one argument list sets, or the name of its first item
/// that is no marker.
fn scan_items(items: &Vec<NestedMeta>) -> (r: Result<(bool, bool), String>)
    ensures
        match r {
            Ok((primary_key, generated)) => {
                &&& first_unknown(items@.map_values(|n: NestedMeta| n@)) is None
                &&& primary_key == items@.map_values(|n: NestedMeta| n@).contains(
                    NestedMetaView::Word(primary_key_marker()),
                )
                &&& generated == items@.map_values(|n: NestedMeta| n@).contains(
                    NestedMetaView::Word(generated_marker()),
                )
            },
            Err(word) => first_unknown(items@.map_values(|n: NestedMeta| n@)) == Some(word@),
        },
{
    let ghost all = items@.map_values(|n: NestedMeta| n@);
    let mut primary_key = false;
    let mut generated = false;
    let mut j: usize = 0;
    while j < items.len()
        invariant
            j <= items.len(),
            all == items@.map_values(|n: NestedMeta| n@),
            first_unknown(all.take(j as int)) is None,
            primary_key == all.take(j as int).contains(NestedMetaView::Word(primary_key_marker())),
            generated == all.take(j as int).contains(NestedMetaView::Word(generated_marker())),
        decreases items.len() - j,
    {
        proof {
            assert(all.take(j + 1).drop_last() =~= all.take(j as int));
            assert(all.take(j + 1).last() == items@[j as int]@);
            lemma_contains_step(all, j as int, NestedMetaView::Word(primary_key_marker()));
            lemma_contains_step(all, j as int, NestedMetaView::Word(generated_marker()));
            lemma_markers_differ();
        }
        match &items[j] {
            NestedMeta::Word(word) => {
                if reads(word, "generated") {
                    generated = true;
                } else if reads(word, "primary_key") {
                    primary_key = true;
                } else {
                    proof {
                        lemma_first_unknown_prefix(all, j + 1);
                    }
                    return Err(word.clone());
                }
            },
            NestedMeta::List(name) | NestedMeta::NameValue(name) | NestedMeta::Literal(name) => {
                proof {
                    lemma_first_unknown_prefix(all, j + 1);
                }
                return Err(name.clone());
            },
        }
        j += 1;
    }
    proof {
        assert(all.take(j as int) =~= all);
    }
    Ok((primary_key, generated))
}

/// An unknown item found in a prefix is the first unknown item of the whole.
proof fn lemma_first_unknown_prefix(items: Seq<NestedMetaView>, upto: int)
    requires
        0 <= upto <= items.len(),
        first_unknown(items.take(upto)) is Some,
    ensures
        first_unknown(items) == first_unknown(items.take(upto)),
    decreases items.len() - upto,
{
    if upto < items.len() {
        assert(items.take(upto + 1).drop_last() =~= items.take(upto));
        lemma_first_unknown_prefix(items, upto + 1);
    } else {
        assert(items.take(upto) =~= items);
    }
}

/// A fault found in a prefix is the first fault of the whole.
proof fn lemma_first_fault_prefix(attrs: Seq<AttributeView>, upto: int)
    requires
        0 <= upto <= attrs.len(),
        first_fault(attrs.take(upto)) is Some,
    ensures
        first_fault(attrs) == first_fault(attrs.take(upto)),
    decreases attrs.len() - upto,
{
    if upto < attrs.len() {
        assert(attrs.take(upto + 1).drop_last() =~= attrs.take(upto));
        lemma_first_fault_prefix(attrs, upto + 1);
    } else {
        assert(attrs.take(upto) =~= attrs);
    }
}

/// A fault found in a prefix is the fault of the whole.
proof fn lemma_extracted_all_prefix(fields: Seq<FieldView>, upto: int)
    requires
        0 <= upto <= fields.len(),
        extracted_all(fields.take(upto)) is Err,
    ensures
        extracted_all(fields) == extracted_all(fields.take(upto)),
    decreases fields.len() - upto,
{
    if upto < fields.len() {
        assert(fields.take(upto + 1).drop_last() =~= fields.take(upto));
        lemma_extracted_all_prefix(fields, upto + 1);
    } else {
        assert(fields.take(upto) =~= fields);
    }
}

impl FieldInfo {
    /// The descriptor of one declared field. The field must have a name; of
    /// its annotations, those in the scope `orm` may hold the markers
    /// `generated` and `primary_key`, as bare words, and nothing else.
    pub fn try_from(field: &Field) -> (r: Result<FieldInfo, DeriveError>)
        ensures
            match r {
                Ok(info) => extracted(field@) == Ok::<FieldInfoView, DeriveFault>(info@),
                Err(error) => extracted(field@) == Err::<FieldInfoView, DeriveFault>(error@),
            },
    {
        let name = match &field.ident {
            None => {
                return Err(DeriveError::UnnamedField);
            },
            Some(name) => name.clone(),
        };
        let ghost attrs = field@.attrs;
        let mut primary_key = false;
        let mut generated = false;
        let mut i: usize = 0;
        while i < field.attrs.len()
            invariant
                i <= field.attrs.len(),
                field@.ident is Some,
                attrs == field@.attrs,
                first_fault(attrs.take(i as int)) is None,
                primary_key == marked(attrs.take(i as int), primary_key_marker()),
                generated == marked(attrs.take(i as int), generated_marker()),
            decreases field.attrs.len() - i,
        {
            proof {
                assert(attrs.take(i + 1).drop_last() =~= attrs.take(i as int));
                assert(attrs.take(i + 1).last() == field.attrs@[i as int]@);
                lemma_marked_step(attrs, i as int, primary_key_marker());
                lemma_marked_step(attrs, i as int, generated_marker());
            }
            match &field.attrs[i] {
                Attribute::Malformed(reason) => {
                    proof {
                        lemma_first_fault_prefix(attrs, i + 1);
                    }
                    return Err(DeriveError::MalformedAttribute(reason.clone()));
                },
                Attribute::Parsed(Meta::List { ident, nested }) => {
                    if reads(ident, "orm") {
                        match scan_items(nested) {
                            Err(word) => {
                                proof {
                                    lemma_first_fault_prefix(attrs, i + 1);
                                }
                                return Err(DeriveError::UnknownAttribute(word));
                            },
                            Ok((sets_primary_key, sets_generated)) => {
                                primary_key = primary_key || sets_primary_key;
                                generated = generated || sets_generated;
                            },
                        }
                    }
                },
                Attribute::Parsed(_) => {},
            }
            i += 1;
        }
        proof {
            assert(attrs.take(i as int) =~= attrs);
        }
        Ok(FieldInfo { name, primary_key, generated })
    }
}

/// The descriptors of a declaration stand in declaration order: there is one
/// for each declared field, and the one at each position is that of the field
/// declared at that position, under that field's name. A declaration has
/// descriptors just when each of its fields has one.
pub proof fn lemma_field_order(fields: Seq<FieldView>)
    ensures
        extracted_all(fields) is Ok <==> forall|i: int|
            0 <= i < fields.len() ==> (#[trigger] extracted(fields[i])) is Ok,
        extracted_all(fields) matches Ok(infos) ==> {
            &&& infos.len() == fields.len()
            &&& forall|i: int|
                0 <= i < fields.len() ==> extracted(fields[i]) == Ok::<FieldInfoView, DeriveFault>(
                    #[trigger] infos[i],
                )
            &&& forall|i: int| 0 <= i < fields.len() ==> fields[i].ident == Some(#[trigger] infos[i].name)
        },
    decreases fields.len(),
{
    if fields.len() > 0 {
        let shorter = fields.drop_last();
        lemma_field_order(shorter);
        assert(fields.last() == fields[fields.len() - 1]);
        assert forall|i: int| 0 <= i < shorter.len() implies shorter[i] == fields[i] by {}
        if extracted_all(fields) is Ok {
            assert forall|i: int| 0 <= i < fields.len() implies (#[trigger] extracted(
                fields[i],
            )) is Ok by {
                if i < shorter.len() {
                    assert(shorter[i] == fields[i]);
                }
            }
        }
        if forall|i: int| 0 <= i < fields.len() ==> (#[trigger] extracted(fields[i])) is Ok {
            assert forall|i: int| 0 <= i < shorter.len() implies (#[trigger] extracted(
                shorter[i],
            )) is Ok by {
                assert(shorter[i] == fields[i]);
            }
        }
    }
}

/// An item that is no marker makes its argument list faulty, whether it is
/// a word, a list, a name-value pair or a literal; where no item before it is
/// unknown, it is the one that is reported, under its name.
pub proof fn lemma_unknown_word(items: Seq<NestedMetaView>, at: int)
    requires
        0 <= at < items.len(),
        !is_marker_item(items[at]),
    ensures
        first_unknown(items) is Some,
        first_unknown(items.take(at)) is None ==> first_unknown(items) == Some(
            item_name(items[at]),
        ),
{
    assert(items.take(at + 1).drop_last() =~= items.take(at));
    assert(items.take(at + 1).last() == items[at]);
    lemma_first_unknown_prefix(items, at + 1);
}

/// A faulty annotation makes the field's annotations faulty; where no
/// annotation before it is faulty, its fault is the one that is reported.
pub proof fn lemma_faulty_attribute(attrs: Seq<AttributeView>, at: int)
    requires
        0 <= at < attrs.len(),
        attribute_fault(attrs[at]) is Some,
    ensures
        first_fault(attrs) is Some,
        first_fault(attrs.take(at)) is None ==> first_fault(attrs) == attribute_fault(attrs[at]),
{
    assert(attrs.take(at + 1).drop_last() =~= attrs.take(at));
    assert(attrs.take(at + 1).last() == attrs[at]);
    lemma_first_fault_prefix(attrs, at + 1);
}

/// A field annotated in the mapping scope with anything but a marker has no
/// descriptor. Where the field has a name and nothing before the item is at
/// fault, the error names the item, and so does its text.
pub proof fn lemma_unknown_annotation_rejected(field: FieldView, attr: int, item: int)
    requires
        0 <= attr < field.attrs.len(),
        0 <= item < scoped_items(field.attrs[attr]).len(),
        !is_marker_item(scoped_items(field.attrs[attr])[item]),
    ensures
        extracted(field) is Err,
        field.ident is Some && first_fault(field.attrs.take(attr)) is None && first_unknown(
            scoped_items(field.attrs[attr]).take(item),
        ) is None ==> {
            let word = item_name(scoped_items(field.attrs[attr])[item]);
            &&& extracted(field) == Err::<FieldInfoView, DeriveFault>(
                DeriveFault::UnknownAttribute(word),
            )
            &&& derive_message(DeriveFault::UnknownAttribute(word)) == "unknown attribute: "@
                + word
        },
{
    lemma_unknown_word(scoped_items(field.attrs[attr]), item);
    lemma_faulty_attribute(field.attrs, attr);
}

/// A declaration with a field that has no descriptor has no entity
/// descriptor: nothing is produced for it.
pub proof fn lemma_faulty_field_rejected(input: DeriveInputView, at: int)
    requires
        input.data matches DataView::Struct(FieldsView::Named(fields)) && 0 <= at < fields.len()
            && extracted(fields[at]) is Err,
    ensures
        derived(input) is Err,
{
    let fields = input.data->Struct_0->Named_0;
    lemma_field_order(fields);
}

impl EntityDescriptor {
    /// The descriptor of a declared type: its table is named after the type,
    /// and its field descriptors stand in declaration order. Fails for a type
    /// that is no structure with named fields, and with the fault of the
    /// first field that has one.
    pub fn try_from(input: &DeriveInput) -> (r: Result<EntityDescriptor, DeriveError>)
        ensures
            match r {
                Ok(entity) => derived(input@) == Ok::<EntityView, DeriveFault>(entity@),
                Err(error) => derived(input@) == Err::<EntityView, DeriveFault>(error@),
            },
    {
        let fields = match &input.data {
            Data::Struct(Fields::Named(fields)) => fields,
            Data::Struct(_) => {
                return Err(DeriveError::NotNamedFields);
            },
            _ => {
                return Err(DeriveError::NotAStruct);
            },
        };
        let ghost declared = fields@.map_values(|f: Field| f@);
        let mut field_infos: Vec<FieldInfo> = Vec::new();
        let mut i: usize = 0;
        proof {
            assert(field_infos.deep_view() =~= Seq::<FieldInfoView>::empty());
        }
        while i < fields.len()
            invariant
                i <= fields.len(),
                declared == fields@.map_values(|f: Field| f@),
                input@.data == DataView::Struct(FieldsView::Named(declared)),
                extracted_all(declared.take(i as int)) == Ok::<Seq<FieldInfoView>, DeriveFault>(
                    field_infos.deep_view(),
                ),
            decreases fields.len() - i,
        {
            proof {
                assert(declared.take(i + 1).drop_last() =~= declared.take(i as int));
                assert(declared.take(i + 1).last() == fields@[i as int]@);
            }
            let ghost before = field_infos.deep_view();
            match FieldInfo::try_from(&fields[i]) {
                Err(error) => {
                    proof {
                        lemma_extracted_all_prefix(declared, i + 1);
                    }
                    return Err(error);
                },
                Ok(info) => {
                    field_infos.push(info);
                    proof {
                        assert(field_infos.deep_view() =~= before.push(info@));
                    }
                },
            }
            i += 1;
        }
        proof {
            assert(declared.take(i as int) =~= declared);
        }
        Ok(
            EntityDescriptor {
                entity_name: input.ident.clone(),
                table_name: input.ident.clone(),
                field_infos,
            },
        )
    }
}

/// Derives the entity descriptor of a declared record type: the table
/// identifier and the field descriptors, from which the row materialiser and
/// the column map serialiser of the type follow. A type that cannot be mapped
/// has no descriptor, and the error says why.
pub fn derive_entity_fn(input: &DeriveInput) -> (r: Result<EntityDescriptor, DeriveError>)
    ensures
        match r {
            Ok(entity) => derived(input@) == Ok::<EntityView, DeriveFault>(entity@),
            Err(error) => derived(input@) == Err::<EntityView, DeriveFault>(error@),
        },
        r matches Ok(entity) ==> {
            &&& input@.data matches DataView::Struct(FieldsView::Named(fields))
            &&& entity@.table_name == input@.ident
            &&& entity@.fields.len() == fields.len()
            &&& forall|i: int|
                0 <= i < fields.len() ==> extracted(fields[i]) == Ok::<FieldInfoView, DeriveFault>(
                    #[trigger] entity@.fields[i],
                )
        },
{
    proof {
        if let DataView::Struct(FieldsView::Named(fields)) = input@.data {
            lemma_field_order(fields);
        }
    }
    EntityDescriptor::try_from(input)
}

} // verus!
