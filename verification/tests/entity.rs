use orm::{
    insert_statement, materialize, ConversionError, Entity, EntityDescriptor, FieldInfo,
    ParamRef, Record, Row, Scale, SqlValue, ToOne,
};

fn scale_row(id: i64, serial: &str) -> Row {
    let mut row = Row::new();
    row.push("id", SqlValue::Int8(id));
    row.push("serial", SqlValue::Text(serial.to_string()));
    row
}

fn scale_descriptor() -> EntityDescriptor {
    EntityDescriptor {
        entity_name: "Scale".to_string(),
        table_name: "Scale".to_string(),
        field_infos: Scale::field_infos(),
    }
}

#[test]
fn scale_descriptor_is_static() {
    assert_eq!(Scale::table_name(), "Scale");
    assert_eq!(
        Scale::field_infos(),
        vec![FieldInfo::new("id", true, true), FieldInfo::new("serial", false, false)]
    );
}

#[test]
fn row_lookup_takes_the_first_column_of_a_name() {
    let mut row = Row::new();
    assert_eq!(row.len(), 0);
    assert_eq!(row.get("id"), None);
    row.push("id", SqlValue::Int8(1));
    row.push("serial", SqlValue::Null);
    row.push("id", SqlValue::Int8(2));
    assert_eq!(row.len(), 3);
    assert_eq!(row.get("id"), Some(&SqlValue::Int8(1)));
    assert_eq!(row.get("serial"), Some(&SqlValue::Null));
    assert_eq!(row.get("ID"), None);
}

#[test]
fn typed_readers_tell_missing_from_mistyped() {
    let mut row = Row::new();
    row.push("flag", SqlValue::Bool(true));
    row.push("small", SqlValue::Int4(-7));
    row.push("big", SqlValue::Int8(1 << 40));
    row.push("text", SqlValue::Text("abc".to_string()));
    row.push("nothing", SqlValue::Null);
    assert_eq!(row.get_bool("flag"), Ok(true));
    assert_eq!(row.get_int4("small"), Ok(-7));
    assert_eq!(row.get_int8("big"), Ok(1 << 40));
    assert_eq!(row.get_text("text"), Ok("abc".to_string()));
    assert_eq!(row.get_bool("none"), Err(ConversionError::MissingColumn("none".to_string())));
    assert_eq!(row.get_int4("none"), Err(ConversionError::MissingColumn("none".to_string())));
    assert_eq!(row.get_int8("none"), Err(ConversionError::MissingColumn("none".to_string())));
    assert_eq!(row.get_text("none"), Err(ConversionError::MissingColumn("none".to_string())));
    assert_eq!(row.get_bool("small"), Err(ConversionError::WrongType("small".to_string())));
    assert_eq!(row.get_int4("big"), Err(ConversionError::WrongType("big".to_string())));
    assert_eq!(row.get_int8("small"), Err(ConversionError::WrongType("small".to_string())));
    assert_eq!(row.get_text("flag"), Err(ConversionError::WrongType("flag".to_string())));
    assert_eq!(row.get_text("nothing"), Err(ConversionError::WrongType("nothing".to_string())));
    assert_eq!(row.get_int8("nothing"), Err(ConversionError::WrongType("nothing".to_string())));
}

#[test]
fn scale_from_row() {
    assert_eq!(
        Scale::from_row(&scale_row(7, "abc")),
        Ok(Scale { id: 7, serial: "abc".to_string() })
    );
    let mut swapped = Row::new();
    swapped.push("serial", SqlValue::Text("abc".to_string()));
    swapped.push("extra", SqlValue::Bool(true));
    swapped.push("id", SqlValue::Int8(7));
    assert_eq!(Scale::from_row(&swapped), Ok(Scale { id: 7, serial: "abc".to_string() }));
}

#[test]
fn scale_from_row_reports_the_first_fault() {
    let empty = Row::new();
    let error = Scale::from_row(&empty).unwrap_err();
    assert_eq!(error, ConversionError::MissingColumn("id".to_string()));
    assert_eq!(error.message(), "missing column: id");

    let mut no_serial = Row::new();
    no_serial.push("id", SqlValue::Int8(1));
    assert_eq!(
        Scale::from_row(&no_serial),
        Err(ConversionError::MissingColumn("serial".to_string()))
    );

    let mut narrow = Row::new();
    narrow.push("id", SqlValue::Int4(1));
    let error = Scale::from_row(&narrow).unwrap_err();
    assert_eq!(error, ConversionError::WrongType("id".to_string()));
    assert_eq!(error.message(), "wrong type in column: id");

    let mut null_serial = Row::new();
    null_serial.push("id", SqlValue::Int8(1));
    null_serial.push("serial", SqlValue::Null);
    assert_eq!(
        Scale::from_row(&null_serial),
        Err(ConversionError::WrongType("serial".to_string()))
    );
}

#[test]
fn scale_to_map_has_one_entry_per_field() {
    let scale = Scale { id: 42, serial: "xyz".to_string() };
    let map = scale.to_map();
    let id: i64 = 42;
    assert_eq!(map.len(), 2);
    assert_eq!(map.get("id"), Some(&ParamRef::Int8(&id)));
    assert_eq!(map.get("serial"), Some(&ParamRef::Text("xyz")));
    assert_eq!(map.get("other"), None);
}

#[test]
fn values_and_parameters_convert_one_for_one() {
    let values = vec![
        SqlValue::Null,
        SqlValue::Bool(true),
        SqlValue::Int4(-3),
        SqlValue::Int8(1 << 40),
        SqlValue::Text("text".to_string()),
    ];
    for value in values.iter() {
        assert_eq!(&value.as_param().to_value(), value);
    }
    let n: i32 = 9;
    assert_eq!(SqlValue::Int4(9).as_param(), ParamRef::Int4(&n));
}

#[test]
fn record_survives_the_round_trip() {
    let scale = Scale { id: 0, serial: "1234567890".to_string() };
    let statement = insert_statement(&scale);
    let mut row = Row::new();
    row.push("id", SqlValue::Int8(17));
    row.push("serial", statement.params[0].to_value());
    let back = Scale::from_row(&row).unwrap();
    assert_eq!(back.serial, scale.serial);
    assert_eq!(back.id, 17);
}

#[test]
fn materialize_keeps_the_order_of_the_rows() {
    let rows = vec![scale_row(3, "c"), scale_row(1, "a"), scale_row(2, "b")];
    let scales: Vec<Scale> = materialize(&rows).unwrap();
    assert_eq!(
        scales,
        vec![
            Scale { id: 3, serial: "c".to_string() },
            Scale { id: 1, serial: "a".to_string() },
            Scale { id: 2, serial: "b".to_string() },
        ]
    );
    let none: Vec<Scale> = materialize(&Vec::new()).unwrap();
    assert!(none.is_empty());
}

#[test]
fn materialize_fails_on_the_first_bad_row() {
    let mut no_serial = Row::new();
    no_serial.push("id", SqlValue::Int8(1));
    let rows = vec![scale_row(3, "c"), no_serial, Row::new()];
    assert_eq!(
        materialize::<Scale>(&rows),
        Err(ConversionError::MissingColumn("serial".to_string()))
    );
}

#[test]
fn ten_scales_in_one_transaction() {
    let scales: Vec<Scale> =
        (0..10).map(|i| Scale { id: 0, serial: format!("serial-{}", i) }).collect();
    let mut stored = Vec::new();
    for (n, scale) in scales.iter().enumerate() {
        let statement = insert_statement(scale);
        assert_eq!(statement.sql, "INSERT INTO \"Scale\" (\"serial\") VALUES($1)");
        assert_eq!(statement.params.len(), 1);
        let mut row = Row::new();
        row.push("id", SqlValue::Int8(n as i64 + 1));
        row.push("serial", statement.params[0].to_value());
        stored.push(row);
    }
    let back: Vec<Scale> = materialize(&stored).unwrap();
    assert_eq!(back.len(), 10);
    for (n, scale) in back.iter().enumerate() {
        assert_ne!(scale.id, 0);
        assert_eq!(scale.serial, scales[n].serial);
        assert!(back.iter().filter(|other| other.id == scale.id).count() == 1);
    }
}

#[test]
fn described_record_from_row() {
    let descriptor = scale_descriptor();
    let record = descriptor.from_row(&scale_row(5, "five")).unwrap();
    assert_eq!(record.values, vec![SqlValue::Int8(5), SqlValue::Text("five".to_string())]);
    let mut row = Row::new();
    row.push("id", SqlValue::Int8(5));
    assert_eq!(
        descriptor.from_row(&row),
        Err(ConversionError::MissingColumn("serial".to_string()))
    );
}

#[test]
fn described_record_to_map() {
    let descriptor = scale_descriptor();
    let record = Record { values: vec![SqlValue::Int8(5), SqlValue::Text("five".to_string())] };
    let map = descriptor.to_map(&record).unwrap();
    let id: i64 = 5;
    assert_eq!(map.len(), 2);
    assert_eq!(map.get("id"), Some(&ParamRef::Int8(&id)));
    assert_eq!(map.get("serial"), Some(&ParamRef::Text("five")));
    let short = Record { values: vec![SqlValue::Int8(5)] };
    assert!(descriptor.to_map(&short).is_none());
}

#[test]
fn described_record_survives_the_round_trip() {
    let descriptor = scale_descriptor();
    let record = Record { values: vec![SqlValue::Int8(0), SqlValue::Text("s".to_string())] };
    let map = descriptor.to_map(&record).unwrap();
    let mut row = Row::new();
    row.push("serial", map.get("serial").unwrap().to_value());
    row.push("id", SqlValue::Int8(99));
    let back = descriptor.from_row(&row).unwrap();
    assert_eq!(back.values[1], record.values[1]);
    assert_eq!(back.values[0], SqlValue::Int8(99));
}

#[test]
fn reference_holds_the_key_alone() {
    let reference: ToOne<i64, Scale> = ToOne::from_id(4);
    assert_eq!(reference.id, 4);
    assert!(reference.entity.is_none());
}
