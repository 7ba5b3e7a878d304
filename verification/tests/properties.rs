use cryo_schemas::{compute_used_columns, ColumnEncoding, ColumnType, Datatype, SchemaError};
use indexmap::{IndexMap, IndexSet};

fn registry() -> IndexMap<String, ColumnType> {
    IndexMap::from_iter(vec![
        ("number".to_string(), ColumnType::UInt32),
        ("hash".to_string(), ColumnType::Binary),
        ("parent_hash".to_string(), ColumnType::Binary),
        ("uncles_hash".to_string(), ColumnType::Binary),
        ("author".to_string(), ColumnType::Binary),
        ("state_root".to_string(), ColumnType::Binary),
        ("transactions_root".to_string(), ColumnType::Binary),
        ("receipts_root".to_string(), ColumnType::Binary),
        ("gas_used".to_string(), ColumnType::UInt32),
        ("extra_data".to_string(), ColumnType::Binary),
        ("logs_bloom".to_string(), ColumnType::Binary),
        ("timestamp".to_string(), ColumnType::UInt32),
        ("size".to_string(), ColumnType::UInt32),
        ("base_fee_per_gas".to_string(), ColumnType::UInt64),
        ("chain_id".to_string(), ColumnType::UInt64),
    ])
}

fn defaults() -> Vec<String> {
    vec![
        "number".to_string(),
        "hash".to_string(),
        "timestamp".to_string(),
        "author".to_string(),
        "gas_used".to_string(),
        "extra_data".to_string(),
        "base_fee_per_gas".to_string(),
    ]
}

#[test]
fn resolve_without_overrides_yields_defaults_in_order() {
    let table = Datatype::Blocks
        .table_schema(&registry(), &defaults(), &ColumnEncoding::Binary, &None, &None, &None, None)
        .unwrap();
    assert_eq!(defaults(), table.columns());
    assert_eq!(Datatype::Blocks, table.datatype);
}

#[test]
fn all_marker_expands_in_registry_order() {
    let expected: Vec<String> = registry().keys().cloned().collect();
    let cols = Some(vec!["all".to_string()]);
    let table = Datatype::Blocks
        .table_schema(&registry(), &defaults(), &ColumnEncoding::Hex, &None, &None, &cols, None)
        .unwrap();
    assert_eq!(expected, table.columns());

    let inc = Some(vec!["all".to_string()]);
    let table = Datatype::Blocks
        .table_schema(&registry(), &defaults(), &ColumnEncoding::Hex, &inc, &None, &None, None)
        .unwrap();
    assert_eq!(expected, table.columns());
}

#[test]
fn all_marker_needs_exactly_one_element() {
    // ["all", "number"] is an ordinary literal list, so the unknown name
    // "all" reaches the type lookup and fails loudly.
    let cols = Some(vec!["all".to_string(), "number".to_string()]);
    let result = Datatype::Blocks.table_schema(
        &registry(),
        &defaults(),
        &ColumnEncoding::Hex,
        &None,
        &None,
        &cols,
        None,
    );
    assert!(matches!(result, Err(SchemaError::InvalidColumn)));

    // In an include list the same shape is filtered permissively instead.
    let inc = Some(vec!["all".to_string(), "chain_id".to_string()]);
    let table = Datatype::Blocks
        .table_schema(&registry(), &defaults(), &ColumnEncoding::Hex, &inc, &None, &None, None)
        .unwrap();
    assert_eq!(8, table.columns().len());
    assert!(!table.columns().contains(&"all".to_string()));
    assert_eq!(Some(&"chain_id".to_string()), table.columns().last());
}

#[test]
fn explicit_unknown_name_raises_invalid_column() {
    let cols = Some(vec!["number".to_string(), "foo_bar".to_string()]);
    let result = Datatype::Blocks.table_schema(
        &registry(),
        &defaults(),
        &ColumnEncoding::Hex,
        &None,
        &None,
        &cols,
        None,
    );
    assert!(matches!(result, Err(SchemaError::InvalidColumn)));
}

#[test]
fn explicit_duplicates_collapse_to_first_occurrence() {
    let cols = Some(vec!["hash".to_string(), "number".to_string(), "hash".to_string()]);
    let table = Datatype::Blocks
        .table_schema(&registry(), &defaults(), &ColumnEncoding::Hex, &None, &None, &cols, None)
        .unwrap();
    assert_eq!(vec!["hash".to_string(), "number".to_string()], table.columns());
}

#[test]
fn hex_preference_rewrites_binary_columns_only() {
    let cols = Some(vec!["number".to_string(), "hash".to_string()]);
    let table = Datatype::Blocks
        .table_schema(&registry(), &defaults(), &ColumnEncoding::Hex, &None, &None, &cols, None)
        .unwrap();
    assert_eq!(Some(ColumnType::Hex), table.column_type("hash"));
    assert_eq!(Some(ColumnType::UInt32), table.column_type("number"));

    let table = Datatype::Blocks
        .table_schema(&registry(), &defaults(), &ColumnEncoding::Binary, &None, &None, &cols, None)
        .unwrap();
    assert_eq!(Some(ColumnType::Binary), table.column_type("hash"));
    assert_eq!(Some(ColumnType::UInt32), table.column_type("number"));
}

#[test]
fn has_column_and_column_type_follow_the_output_set() {
    let table = Datatype::Blocks
        .table_schema(&registry(), &defaults(), &ColumnEncoding::Hex, &None, &None, &None, None)
        .unwrap();
    assert!(table.has_column("author"));
    assert!(!table.has_column("chain_id"));
    assert_eq!(None, table.column_type("chain_id"));
    assert_eq!(Some(ColumnType::UInt32), table.column_type("timestamp"));
}

#[test]
fn include_then_exclude_of_same_name_removes_it() {
    let inc = Some(vec!["chain_id".to_string()]);
    let exc = Some(vec!["chain_id".to_string()]);
    let table = Datatype::Blocks
        .table_schema(&registry(), &defaults(), &ColumnEncoding::Hex, &inc, &exc, &None, None)
        .unwrap();
    assert!(!table.columns().contains(&"chain_id".to_string()));
    assert_eq!(defaults(), table.columns());
}

#[test]
fn empty_include_and_exclude_behave_as_absent() {
    let inc = Some(Vec::new());
    let exc = Some(Vec::new());
    let table = Datatype::Blocks
        .table_schema(&registry(), &defaults(), &ColumnEncoding::Hex, &inc, &exc, &None, None)
        .unwrap();
    assert_eq!(defaults(), table.columns());
}

#[test]
fn sort_columns_are_stored_unchecked() {
    let sort = Some(vec!["number".to_string(), "not_an_output_column".to_string()]);
    let table = Datatype::Blocks
        .table_schema(
            &registry(),
            &defaults(),
            &ColumnEncoding::Hex,
            &None,
            &None,
            &None,
            sort.clone(),
        )
        .unwrap();
    assert_eq!(sort, table.sort_columns);
}

#[test]
fn column_type_canonical_names() {
    assert_eq!("uint32", ColumnType::UInt32.as_str());
    assert_eq!("uint64", ColumnType::UInt64.as_str());
    assert_eq!("int32", ColumnType::Int32.as_str());
    assert_eq!("int64", ColumnType::Int64.as_str());
    assert_eq!("float64", ColumnType::Float64.as_str());
    assert_eq!("decimal128", ColumnType::Decimal128.as_str());
    assert_eq!("string", ColumnType::String.as_str());
    assert_eq!("binary", ColumnType::Binary.as_str());
    assert_eq!("hex", ColumnType::Hex.as_str());
}

#[test]
fn selector_applies_precedence_directly() {
    let all: IndexSet<String> =
        IndexSet::from_iter(vec!["a".to_string(), "b".to_string(), "c".to_string()]);
    // explicit wins over everything else, kept verbatim
    let picked = compute_used_columns(
        all.clone(),
        &vec!["a".to_string()],
        &Some(vec!["b".to_string()]),
        &Some(vec!["c".to_string()]),
        &Some(vec!["c".to_string(), "z".to_string()]),
    );
    let picked: Vec<String> = picked.into_iter().collect();
    assert_eq!(vec!["c".to_string(), "z".to_string()], picked);

    // include appends in working-set order, then exclusion runs last
    let picked = compute_used_columns(
        all,
        &vec!["a".to_string()],
        &Some(vec!["c".to_string(), "x".to_string()]),
        &Some(vec!["a".to_string()]),
        &None,
    );
    let picked: Vec<String> = picked.into_iter().collect();
    assert_eq!(vec!["c".to_string()], picked);
}
