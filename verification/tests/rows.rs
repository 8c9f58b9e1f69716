use fourree::rng::ThreadRandom;
use fourree::schema::{Field, FieldGenerator, RowError, Schema};

fn field(name: &str, generator: FieldGenerator) -> Field {
    Field {
        name: name.to_string(),
        data_type: "test".to_string(),
        length: None,
        padding: None,
        generator,
    }
}

fn delimited_schema() -> Schema {
    Schema {
        table_name: "people".to_string(),
        delimiter: "\t".to_string(),
        fields: vec![
            field("id", FieldGenerator::Integer { min: 10, max: 100 }),
            field("code", FieldGenerator::String { length: 5 }),
            field("born", FieldGenerator::Date),
        ],
    }
}

#[test]
fn header_uses_the_delimiter_and_ends_with_newline() {
    let schema = delimited_schema();
    assert_eq!(schema.generate_header(), "id\tcode\tborn\n");
}

#[test]
fn header_in_fixed_mode_has_no_delimiter() {
    let mut schema = delimited_schema();
    schema.delimiter = "fixed".to_string();
    assert_eq!(schema.generate_header(), "idcodeborn\n");
}

#[test]
fn add_field_appends() {
    let mut schema = delimited_schema();
    schema.add_field(field("extra", FieldGenerator::NoGen));
    assert_eq!(schema.fields.len(), 4);
    assert_eq!(schema.fields[3].name, "extra");
}

#[test]
fn delimited_row_has_one_value_per_field() {
    let schema = delimited_schema();
    let mut rng = ThreadRandom::new();
    for _ in 0..500 {
        let row = schema.generate_row(&mut rng).unwrap();
        let cells: Vec<&str> = row.split('\t').collect();
        assert_eq!(cells.len(), 3);
        let id: i64 = cells[0].parse().unwrap();
        assert!((10..100).contains(&id));
        assert_eq!(cells[1].chars().count(), 5);
        assert!(cells[1].chars().all(|c| c.is_ascii_uppercase()));
        assert_eq!(cells[2].len(), 10);
        assert_eq!(cells[2].as_bytes()[4], b'-');
        assert_eq!(cells[2].as_bytes()[7], b'-');
    }
}

#[test]
fn nogen_emits_the_placeholder() {
    let schema = Schema {
        table_name: "t".to_string(),
        delimiter: ",".to_string(),
        fields: vec![field("a", FieldGenerator::NoGen), field("b", FieldGenerator::NoGen)],
    };
    let mut rng = ThreadRandom::new();
    assert_eq!(schema.generate_row(&mut rng).unwrap(), "None,None");
}

#[test]
fn fixed_row_round_trips_through_padding() {
    let mut schema = Schema {
        table_name: "t".to_string(),
        delimiter: "fixed".to_string(),
        fields: vec![
            field("id", FieldGenerator::Integer { min: 10, max: 100 }),
            field("code", FieldGenerator::String { length: 5 }),
        ],
    };
    schema.fields[0].length = Some(8);
    schema.fields[0].padding = Some('0');
    schema.fields[1].length = Some(9);
    schema.fields[1].padding = Some(' ');
    let mut rng = ThreadRandom::new();
    for _ in 0..500 {
        let row = schema.generate_row(&mut rng).unwrap();
        assert_eq!(row.len(), 17);
        let (id_cell, code_cell) = row.split_at(8);
        let id_value = id_cell.trim_start_matches('0');
        assert_eq!(id_value.len(), 2, "natural width recovered: {row}");
        let id: i64 = id_value.parse().unwrap();
        assert!((10..100).contains(&id));
        let code_value = code_cell.trim_start_matches(' ');
        assert_eq!(code_value.len(), 5);
        assert!(code_value.chars().all(|c| c.is_ascii_uppercase()));
    }
}

#[test]
fn fixed_row_without_length_is_an_error() {
    let schema = Schema {
        table_name: "t".to_string(),
        delimiter: "fixed".to_string(),
        fields: vec![field("id", FieldGenerator::Integer { min: 10, max: 100 })],
    };
    let mut rng = ThreadRandom::new();
    match schema.generate_row(&mut rng) {
        Err(RowError::MissingLength { field }) => assert_eq!(field, "id"),
        other => panic!("expected a missing-length error, got {:?}", other.is_ok()),
    }
}

#[test]
fn fixed_row_without_padding_must_fit_exactly() {
    let mut schema = Schema {
        table_name: "t".to_string(),
        delimiter: "fixed".to_string(),
        fields: vec![field("code", FieldGenerator::String { length: 3 })],
    };
    schema.fields[0].length = Some(5);
    let mut rng = ThreadRandom::new();
    match schema.generate_row(&mut rng) {
        Err(RowError::PaddingMismatch { field }) => assert_eq!(field, "code"),
        other => panic!("expected a padding-mismatch error, got {:?}", other.is_ok()),
    }
}

#[test]
fn fixed_row_without_padding_that_fits_is_accepted() {
    let mut schema = Schema {
        table_name: "t".to_string(),
        delimiter: "fixed".to_string(),
        fields: vec![field("code", FieldGenerator::String { length: 4 })],
    };
    schema.fields[0].length = Some(4);
    let mut rng = ThreadRandom::new();
    let row = schema.generate_row(&mut rng).unwrap();
    assert_eq!(row.chars().count(), 4);
}

#[test]
fn empty_choice_set_is_an_error() {
    let schema = Schema {
        table_name: "t".to_string(),
        delimiter: ",".to_string(),
        fields: vec![field(
            "pick",
            FieldGenerator::Choice { choices: vec![], choice_length: 0, length: 2 },
        )],
    };
    let mut rng = ThreadRandom::new();
    match schema.generate_row(&mut rng) {
        Err(RowError::EmptyChoices { field }) => assert_eq!(field, "pick"),
        other => panic!("expected an empty-choices error, got {:?}", other.is_ok()),
    }
}

#[test]
fn error_messages_name_the_field() {
    let e = RowError::MissingLength { field: "id".to_string() };
    assert_eq!(e.message(), "missing 'length' for field id");
}

#[test]
fn rows_are_newline_terminated_lines() {
    let schema = delimited_schema();
    let mut rng = ThreadRandom::new();
    let out = schema.generate_rows(&mut rng, 7).unwrap();
    assert_eq!(out.matches('\n').count(), 7);
    assert!(out.ends_with('\n'));
    assert_eq!(out.lines().count(), 7);
}

#[test]
fn zero_rows_is_the_empty_string() {
    let schema = delimited_schema();
    let mut rng = ThreadRandom::new();
    assert_eq!(schema.generate_rows(&mut rng, 0).unwrap(), "");
}

#[test]
fn failing_row_fails_the_whole_batch() {
    let schema = Schema {
        table_name: "t".to_string(),
        delimiter: ",".to_string(),
        fields: vec![field(
            "pick",
            FieldGenerator::Choice { choices: vec![], choice_length: 0, length: 1 },
        )],
    };
    let mut rng = ThreadRandom::new();
    assert!(schema.generate_rows(&mut rng, 3).is_err());
}
