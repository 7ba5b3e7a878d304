use cryo_schemas::{ColumnEncoding, ColumnType, Datatype};
use indexmap::IndexMap;

fn blocks_column_types() -> IndexMap<String, ColumnType> {
    IndexMap::from_iter(vec![
        ("number".to_string(), ColumnType::UInt32),
        ("hash".to_string(), ColumnType::Binary),
        ("parent_hash".to_string(), ColumnType::Binary),
        ("uncles_hash".to_string(), ColumnType::Binary),
        ("author".to_string(), ColumnType::Binary),
        ("state_root".to_string(), ColumnType::Binary),
        ("transactions_root".to_string(), ColumnType::Binary),
        ("receipts_root".to_string(), ColumnType::Binary),
        ("gas_used".to_string(), ColumnType::UInt32),
        ("extra_data".to_string(), ColumnType::Binary),
        ("logs_bloom".to_string(), ColumnType::Binary),
        ("timestamp".to_string(), ColumnType::UInt32),
        ("size".to_string(), ColumnType::UInt32),
        ("base_fee_per_gas".to_string(), ColumnType::UInt64),
        ("chain_id".to_string(), ColumnType::UInt64),
    ])
}

fn blocks_default_columns() -> Vec<String> {
    vec![
        "number".to_string(),
        "hash".to_string(),
        "timestamp".to_string(),
        "author".to_string(),
        "gas_used".to_string(),
        "extra_data".to_string(),
        "base_fee_per_gas".to_string(),
    ]
}

#[test]
fn test_table_schema_explicit_cols() {
    let cols = Some(vec!["number".to_string(), "hash".to_string()]);
    let table = Datatype::Blocks
        .table_schema(
            &blocks_column_types(),
            &blocks_default_columns(),
            &ColumnEncoding::Hex,
            &None,
            &None,
            &cols,
            None,
        )
        .unwrap();
    assert_eq!(vec!["number".to_string(), "hash".to_string()], table.columns());

    // "all" marker support
    let cols = Some(vec!["all".to_string()]);
    let table = Datatype::Blocks
        .table_schema(
            &blocks_column_types(),
            &blocks_default_columns(),
            &ColumnEncoding::Hex,
            &None,
            &None,
            &cols,
            None,
        )
        .unwrap();
    assert_eq!(15, table.columns().len());
    assert!(table.columns().contains(&"hash".to_string()));
    assert!(table.columns().contains(&"transactions_root".to_string()));
}

#[test]
fn test_table_schema_include_cols() {
    let inc_cols = Some(vec!["chain_id".to_string(), "receipts_root".to_string()]);
    let table = Datatype::Blocks
        .table_schema(
            &blocks_column_types(),
            &blocks_default_columns(),
            &ColumnEncoding::Hex,
            &inc_cols,
            &None,
            &None,
            None,
        )
        .unwrap();
    assert_eq!(9, table.columns().len());
    assert_eq!(
        vec!["chain_id".to_string(), "receipts_root".to_string()],
        table.columns()[7..9].to_vec()
    );

    // Non-existing include is skipped
    let inc_cols = Some(vec!["chain_id".to_string(), "foo_bar".to_string()]);
    let table = Datatype::Blocks
        .table_schema(
            &blocks_column_types(),
            &blocks_default_columns(),
            &ColumnEncoding::Hex,
            &inc_cols,
            &None,
            &None,
            None,
        )
        .unwrap();
    assert_eq!(Some(&"chain_id".to_string()), table.columns().last());
    assert!(!table.columns().contains(&"foo_bar".to_string()));

    // "all" marker support
    let inc_cols = Some(vec!["all".to_string()]);
    let table = Datatype::Blocks
        .table_schema(
            &blocks_column_types(),
            &blocks_default_columns(),
            &ColumnEncoding::Hex,
            &inc_cols,
            &None,
            &None,
            None,
        )
        .unwrap();
    assert_eq!(15, table.columns().len());
    assert!(table.columns().contains(&"hash".to_string()));
    assert!(table.columns().contains(&"transactions_root".to_string()));
}

#[test]
fn test_table_schema_exclude_cols() {
    // defaults
    let table = Datatype::Blocks
        .table_schema(
            &blocks_column_types(),
            &blocks_default_columns(),
            &ColumnEncoding::Hex,
            &None,
            &None,
            &None,
            None,
        )
        .unwrap();
    assert_eq!(7, table.columns().len());
    assert!(table.columns().contains(&"author".to_string()));
    assert!(table.columns().contains(&"extra_data".to_string()));

    let ex_cols = Some(vec!["author".to_string(), "extra_data".to_string()]);
    let table = Datatype::Blocks
        .table_schema(
            &blocks_column_types(),
            &blocks_default_columns(),
            &ColumnEncoding::Hex,
            &None,
            &ex_cols,
            &None,
            None,
        )
        .unwrap();
    assert_eq!(5, table.columns().len());
    assert!(!table.columns().contains(&"author".to_string()));
    assert!(!table.columns().contains(&"extra_data".to_string()));

    // Non-existing exclude is ignored
    let ex_cols = Some(vec!["timestamp".to_string(), "foo_bar".to_string()]);
    let table = Datatype::Blocks
        .table_schema(
            &blocks_column_types(),
            &blocks_default_columns(),
            &ColumnEncoding::Hex,
            &None,
            &ex_cols,
            &None,
            None,
        )
        .unwrap();
    assert_eq!(6, table.columns().len());
    assert!(!table.columns().contains(&"timestamp".to_string()));
    assert!(!table.columns().contains(&"foo_bar".to_string()));
}

#[test]
fn test_table_schema_include_and_exclude_cols() {
    let inc_cols = Some(vec!["chain_id".to_string(), "receipts_root".to_string()]);
    let ex_cols = Some(vec!["author".to_string(), "extra_data".to_string()]);
    let table = Datatype::Blocks
        .table_schema(
            &blocks_column_types(),
            &blocks_default_columns(),
            &ColumnEncoding::Hex,
            &inc_cols,
            &ex_cols,
            &None,
            None,
        )
        .unwrap();
    assert!(!table.columns().contains(&"author".to_string()));
    assert!(!table.columns().contains(&"extra_data".to_string()));
    assert_eq!(7, table.columns().len());
    assert_eq!(
        vec!["chain_id".to_string(), "receipts_root".to_string()],
        table.columns()[5..7].to_vec()
    );
}
