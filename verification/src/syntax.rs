//! The declaration of a record type as the entity derivation reads it: the
//! type's name, its fields, and the annotations on each field.

use vstd::prelude::*;

verus! {

/// One element of an annotation's argument list.
#[derive(Debug, Clone, PartialEq, Eq)]
pub enum NestedMeta {
    /// A bare word, such as `generated`.
    Word(String),
    /// A word with an argument list of its own, as the `index(unique)` in
    /// `#[orm(index(unique))]`: the word.
    List(String),
    /// A name-value pair, as the `table_name = "scales"` in
    /// `#[orm(table_name = "scales")]`: the name.
    NameValue(String),
    /// A literal, as the `"scales"` in `#[orm("scales")]`: its text as it is
    /// written.
    Literal(String),
}

/// The content of one annotation.
#[derive(Debug, Clone, PartialEq, Eq)]
pub enum Meta {
    /// A bare word, as in `#[test]`.
    Word(String),
    /// A word with an argument list, as in `#[orm(generated)]`.
    List { ident: String, nested: Vec<NestedMeta> },
    /// A name-value pair, as in `#[doc = "text"]`.
    NameValue { ident: String },
}

/// One annotation on a field.
#[derive(Debug, Clone, PartialEq, Eq)]
pub enum Attribute {
    /// An annotation whose content is well formed.
    Parsed(Meta),
    /// An annotation whose content is no word, list or name-value pair, with
    /// the reason.
    Malformed(String),
}

/// One declared field.
#[derive(Debug, Clone, PartialEq, Eq)]
pub struct Field {
    /// The field's name; `None` for a positional field.
    pub ident: Option<String>,
    pub attrs: Vec<Attribute>,
}

/// The fields of a structure.
#[derive(Debug, Clone, PartialEq, Eq)]
pub enum Fields {
    Named(Vec<Field>),
    Unnamed(Vec<Field>),
    Unit,
}

/// The shape of a declared type.
#[derive(Debug, Clone, PartialEq, Eq)]
pub enum Data {
    Struct(Fields),
    Enum,
    Union,
}

/// A declared type that an entity is to be derived for.
#[derive(Debug, Clone, PartialEq, Eq)]
pub struct DeriveInput {
    pub ident: String,
    pub data: Data,
}

pub enum NestedMetaView {
    Word(Seq<char>),
    List(Seq<char>),
    NameValue(Seq<char>),
    Literal(Seq<char>),
}

pub enum MetaView {
    Word(Seq<char>),
    List { ident: Seq<char>, nested: Seq<NestedMetaView> },
    NameValue { ident: Seq<char> },
}

pub enum AttributeView {
    Parsed(MetaView),
    Malformed(Seq<char>),
}

pub struct FieldView {
    pub ident: Option<Seq<char>>,
    pub attrs: Seq<AttributeView>,
}

pub enum FieldsView {
    Named(Seq<FieldView>),
    Unnamed(Seq<FieldView>),
    Unit,
}

pub enum DataView {
    Struct(FieldsView),
    Enum,
    Union,
}

pub struct DeriveInputView {
    pub ident: Seq<char>,
    pub data: DataView,
}

impl View for NestedMeta {
    type V = NestedMetaView;

    open spec fn view(&self) -> NestedMetaView {
        match *self {
            NestedMeta::Word(word) => NestedMetaView::Word(word@),
            NestedMeta::List(word) => NestedMetaView::List(word@),
            NestedMeta::NameValue(name) => NestedMetaView::NameValue(name@),
            NestedMeta::Literal(text) => NestedMetaView::Literal(text@),
        }
    }
}

impl View for Meta {
    type V = MetaView;

    open spec fn view(&self) -> MetaView {
        match *self {
            Meta::Word(word) => MetaView::Word(word@),
            Meta::List { ident, nested } => MetaView::List {
                ident: ident@,
                nested: nested@.map_values(|n: NestedMeta| n@),
            },
            Meta::NameValue { ident } => MetaView::NameValue { ident: ident@ },
        }
    }
}

impl View for Attribute {
    type V = AttributeView;

    open spec fn view(&self) -> AttributeView {
        match *self {
            Attribute::Parsed(meta) => AttributeView::Parsed(meta@),
            Attribute::Malformed(reason) => AttributeView::Malformed(reason@),
        }
    }
}

impl View for Field {
    type V = FieldView;

    open spec fn view(&self) -> FieldView {
        FieldView {
            ident: match self.ident {
                Some(name) => Some(name@),
                None => None,
            },
            attrs: self.attrs@.map_values(|a: Attribute| a@),
        }
    }
}

impl View for Fields {
    type V = FieldsView;

    open spec fn view(&self) -> FieldsView {
        match *self {
            Fields::Named(fields) => FieldsView::Named(fields@.map_values(|f: Field| f@)),
            Fields::Unnamed(fields) => FieldsView::Unnamed(fields@.map_values(|f: Field| f@)),
            Fields::Unit => FieldsView::Unit,
        }
    }
}

impl View for Data {
    type V = DataView;

    open spec fn view(&self) -> DataView {
        match *self {
            Data::Struct(fields) => DataView::Struct(fields@),
            Data::Enum => DataView::Enum,
            Data::Union => DataView::Union,
        }
    }
}

impl View for DeriveInput {
    type V = DeriveInputView;

    open spec fn view(&self) -> DeriveInputView {
        DeriveInputView { ident: self.ident@, data: self.data@ }
    }
}

} // verus!
