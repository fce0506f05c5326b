use orm::syntax::{Attribute, Data, DeriveInput, Field, Fields, Meta, NestedMeta};
use orm::{derive_entity_fn, DeriveError, EntityDescriptor, FieldInfo};

fn word(text: &str) -> NestedMeta {
    NestedMeta::Word(text.to_string())
}

fn orm(words: &[&str]) -> Attribute {
    Attribute::Parsed(Meta::List {
        ident: "orm".to_string(),
        nested: words.iter().map(|w| word(w)).collect(),
    })
}

fn field(name: &str, attrs: Vec<Attribute>) -> Field {
    Field { ident: Some(name.to_string()), attrs }
}

fn scale_input() -> DeriveInput {
    DeriveInput {
        ident: "Scale".to_string(),
        data: Data::Struct(Fields::Named(vec![
            field("id", vec![orm(&["generated", "primary_key"])]),
            field("serial", vec![]),
        ])),
    }
}

#[test]
fn plain_field_has_no_flags() {
    assert_eq!(FieldInfo::try_from(&field("serial", vec![])), Ok(FieldInfo::new("serial", false, false)));
}

#[test]
fn markers_set_the_flags() {
    assert_eq!(
        FieldInfo::try_from(&field("id", vec![orm(&["generated", "primary_key"])])),
        Ok(FieldInfo::new("id", true, true))
    );
    assert_eq!(
        FieldInfo::try_from(&field("id", vec![orm(&["generated"])])),
        Ok(FieldInfo::new("id", false, true))
    );
    assert_eq!(
        FieldInfo::try_from(&field("id", vec![orm(&["primary_key"])])),
        Ok(FieldInfo::new("id", true, false))
    );
    assert_eq!(
        FieldInfo::try_from(&field("id", vec![orm(&["primary_key"]), orm(&[]), orm(&["generated"])])),
        Ok(FieldInfo::new("id", true, true))
    );
}

#[test]
fn unnamed_field_is_rejected() {
    let positional = Field { ident: None, attrs: vec![orm(&["bogus"])] };
    let error = FieldInfo::try_from(&positional).unwrap_err();
    assert_eq!(error, DeriveError::UnnamedField);
    assert_eq!(error.message(), "expected a named field");
}

#[test]
fn unknown_attribute_is_rejected_by_name() {
    let error = FieldInfo::try_from(&field("id", vec![orm(&["generated", "primry_key"])])).unwrap_err();
    assert_eq!(error, DeriveError::UnknownAttribute("primry_key".to_string()));
    assert_eq!(error.message(), "unknown attribute: primry_key");
}

#[test]
fn first_unknown_attribute_is_reported() {
    let attrs = vec![orm(&["generated"]), orm(&["primary_key", "first", "second"]), orm(&["third"])];
    assert_eq!(
        FieldInfo::try_from(&field("id", attrs)),
        Err(DeriveError::UnknownAttribute("first".to_string()))
    );
}

#[test]
fn other_scopes_are_ignored() {
    let attrs = vec![
        Attribute::Parsed(Meta::Word("deprecated".to_string())),
        Attribute::Parsed(Meta::NameValue { ident: "doc".to_string() }),
        Attribute::Parsed(Meta::List { ident: "serde".to_string(), nested: vec![word("skip"), word("generated")] }),
        Attribute::Parsed(Meta::Word("orm".to_string())),
        Attribute::Parsed(Meta::NameValue { ident: "orm".to_string() }),
    ];
    assert_eq!(FieldInfo::try_from(&field("note", attrs)), Ok(FieldInfo::new("note", false, false)));
}

#[test]
fn items_that_are_no_words_are_rejected() {
    let attrs = vec![Attribute::Parsed(Meta::List {
        ident: "orm".to_string(),
        nested: vec![word("generated"), NestedMeta::NameValue("table_name".to_string())],
    })];
    let error = FieldInfo::try_from(&field("f", attrs)).unwrap_err();
    assert_eq!(error, DeriveError::UnknownAttribute("table_name".to_string()));
    assert_eq!(error.message(), "unknown attribute: table_name");

    let list = vec![Attribute::Parsed(Meta::List {
        ident: "orm".to_string(),
        nested: vec![NestedMeta::List("index".to_string()), word("bogus")],
    })];
    assert_eq!(
        FieldInfo::try_from(&field("f", list)),
        Err(DeriveError::UnknownAttribute("index".to_string()))
    );

    let literal = vec![Attribute::Parsed(Meta::List {
        ident: "orm".to_string(),
        nested: vec![NestedMeta::Literal("\"scales\"".to_string())],
    })];
    assert_eq!(
        FieldInfo::try_from(&field("f", literal)),
        Err(DeriveError::UnknownAttribute("\"scales\"".to_string()))
    );
}

#[test]
fn a_marker_must_be_a_bare_word() {
    let attrs = vec![Attribute::Parsed(Meta::List {
        ident: "orm".to_string(),
        nested: vec![NestedMeta::NameValue("generated".to_string())],
    })];
    assert_eq!(
        FieldInfo::try_from(&field("id", attrs)),
        Err(DeriveError::UnknownAttribute("generated".to_string()))
    );
    let list = vec![Attribute::Parsed(Meta::List {
        ident: "orm".to_string(),
        nested: vec![NestedMeta::List("primary_key".to_string())],
    })];
    assert_eq!(
        FieldInfo::try_from(&field("id", list)),
        Err(DeriveError::UnknownAttribute("primary_key".to_string()))
    );
}

#[test]
fn items_outside_the_scope_are_not_read() {
    let attrs = vec![Attribute::Parsed(Meta::List {
        ident: "serde".to_string(),
        nested: vec![
            NestedMeta::NameValue("rename".to_string()),
            NestedMeta::Literal("1".to_string()),
            NestedMeta::List("with".to_string()),
        ],
    })];
    assert_eq!(FieldInfo::try_from(&field("f", attrs)), Ok(FieldInfo::new("f", false, false)));
}

#[test]
fn name_value_item_leaves_no_descriptor() {
    let input = DeriveInput {
        ident: "Scale".to_string(),
        data: Data::Struct(Fields::Named(vec![
            field("id", vec![orm(&["generated"])]),
            field(
                "f",
                vec![Attribute::Parsed(Meta::List {
                    ident: "orm".to_string(),
                    nested: vec![NestedMeta::NameValue("table_name".to_string())],
                })],
            ),
        ])),
    };
    assert_eq!(
        derive_entity_fn(&input),
        Err(DeriveError::UnknownAttribute("table_name".to_string()))
    );
}

#[test]
fn malformed_attribute_is_rejected() {
    let attrs = vec![
        orm(&["generated"]),
        Attribute::Malformed("expected identifier or literal".to_string()),
        orm(&["bogus"]),
    ];
    let error = FieldInfo::try_from(&field("id", attrs)).unwrap_err();
    assert_eq!(error, DeriveError::MalformedAttribute("expected identifier or literal".to_string()));
    assert_eq!(error.message(), "expected identifier or literal");
}

#[test]
fn descriptor_of_scale() {
    let entity = derive_entity_fn(&scale_input()).unwrap();
    assert_eq!(entity.entity_name, "Scale");
    assert_eq!(entity.table_name, "Scale");
    assert_eq!(
        entity.field_infos,
        vec![FieldInfo::new("id", true, true), FieldInfo::new("serial", false, false)]
    );
    assert_eq!(EntityDescriptor::try_from(&scale_input()), Ok(entity));
}

#[test]
fn descriptors_keep_declaration_order() {
    let names = ["zeta", "alpha", "mid", "beta", "omega"];
    let input = DeriveInput {
        ident: "Wide".to_string(),
        data: Data::Struct(Fields::Named(names.iter().map(|n| field(n, vec![])).collect())),
    };
    let entity = derive_entity_fn(&input).unwrap();
    assert_eq!(entity.field_infos.len(), names.len());
    for (info, name) in entity.field_infos.iter().zip(names.iter()) {
        assert_eq!(info.name, *name);
    }
}

#[test]
fn structure_without_fields_has_an_empty_descriptor() {
    let input = DeriveInput { ident: "Empty".to_string(), data: Data::Struct(Fields::Named(vec![])) };
    let entity = derive_entity_fn(&input).unwrap();
    assert_eq!(entity.table_name, "Empty");
    assert!(entity.field_infos.is_empty());
}

#[test]
fn only_structures_with_named_fields_are_mapped() {
    let tuple = DeriveInput {
        ident: "Pair".to_string(),
        data: Data::Struct(Fields::Unnamed(vec![Field { ident: None, attrs: vec![] }])),
    };
    let unit = DeriveInput { ident: "Unit".to_string(), data: Data::Struct(Fields::Unit) };
    let choice = DeriveInput { ident: "Choice".to_string(), data: Data::Enum };
    let overlay = DeriveInput { ident: "Overlay".to_string(), data: Data::Union };
    assert_eq!(derive_entity_fn(&tuple), Err(DeriveError::NotNamedFields));
    assert_eq!(derive_entity_fn(&unit), Err(DeriveError::NotNamedFields));
    assert_eq!(derive_entity_fn(&choice), Err(DeriveError::NotAStruct));
    assert_eq!(derive_entity_fn(&overlay), Err(DeriveError::NotAStruct));
    assert_eq!(
        DeriveError::NotNamedFields.message(),
        "derive(Entity) can only be applied to structs with named fields"
    );
    assert_eq!(DeriveError::NotAStruct.message(), "derive(Entity) can only be applied to structs");
}

#[test]
fn faulty_field_leaves_no_descriptor() {
    let input = DeriveInput {
        ident: "Scale".to_string(),
        data: Data::Struct(Fields::Named(vec![
            field("id", vec![orm(&["generated"])]),
            field("serial", vec![orm(&["unique"])]),
            field("model", vec![orm(&["indexed"])]),
        ])),
    };
    assert_eq!(derive_entity_fn(&input), Err(DeriveError::UnknownAttribute("unique".to_string())));
    let nameless = DeriveInput {
        ident: "Scale".to_string(),
        data: Data::Struct(Fields::Named(vec![
            field("id", vec![]),
            Field { ident: None, attrs: vec![] },
        ])),
    };
    assert_eq!(derive_entity_fn(&nameless), Err(DeriveError::UnnamedField));
}
