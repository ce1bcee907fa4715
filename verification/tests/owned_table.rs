use proof_of_sql::column::{OwnedColumn, PoSQLTimeUnit, PoSQLTimeZone};
use proof_of_sql::scalar::Scalar;
use proof_of_sql::table::{
    bigint, boolean, int128, owned_table, scalar, timestamptz, varchar, Ident, IndexMap,
    OwnedTable, OwnedTableError,
};

#[test]
fn we_can_create_an_owned_table_with_no_columns() {
    let table = OwnedTable::try_new(IndexMap::default()).unwrap();
    assert_eq!(table.num_columns(), 0);
}

#[test]
fn we_can_create_an_empty_owned_table() {
    let built_table = owned_table(vec![
        bigint("bigint", vec![]),
        int128("decimal", vec![]),
        varchar("varchar", vec![]),
        scalar("scalar", vec![]),
        boolean("boolean", vec![]),
    ]);
    let mut table = IndexMap::default();
    table.insert(Ident::new("bigint"), OwnedColumn::BigInt(vec![]));
    table.insert(Ident::new("decimal"), OwnedColumn::Int128(vec![]));
    table.insert(Ident::new("varchar"), OwnedColumn::VarChar(vec![]));
    table.insert(Ident::new("scalar"), OwnedColumn::Scalar(vec![]));
    table.insert(Ident::new("boolean"), OwnedColumn::Boolean(vec![]));
    assert_eq!(built_table.into_inner(), table);
}

#[test]
fn we_can_create_an_owned_table_with_data() {
    let built_table = owned_table(vec![
        bigint("bigint", vec![0, 1, 2, 3, 4, 5, 6, i64::MIN, i64::MAX]),
        int128("decimal", vec![0, 1, 2, 3, 4, 5, 6, i128::MIN, i128::MAX]),
        varchar(
            "varchar",
            vec![
                "0".to_string(),
                "1".to_string(),
                "2".to_string(),
                "3".to_string(),
                "4".to_string(),
                "5".to_string(),
                "6".to_string(),
                "7".to_string(),
                "8".to_string(),
            ],
        ),
        scalar("scalar", vec![0, 1, 2, 3, 4, 5, 6, 7, 8]),
        boolean(
            "boolean",
            vec![true, false, true, false, true, false, true, false, true],
        ),
        timestamptz(
            "time_stamp",
            PoSQLTimeUnit::Second,
            PoSQLTimeZone::utc(),
            vec![0, 1, 2, 3, 4, 5, 6, i64::MIN, i64::MAX],
        ),
    ]);
    let mut table = IndexMap::default();
    table.insert(
        Ident::new("time_stamp"),
        OwnedColumn::TimestampTZ(
            PoSQLTimeUnit::Second,
            PoSQLTimeZone::utc(),
            vec![0, 1, 2, 3, 4, 5, 6, i64::MIN, i64::MAX],
        ),
    );
    table.insert(
        Ident::new("bigint"),
        OwnedColumn::BigInt(vec![0_i64, 1, 2, 3, 4, 5, 6, i64::MIN, i64::MAX]),
    );
    table.insert(
        Ident::new("decimal"),
        OwnedColumn::Int128(vec![0_i128, 1, 2, 3, 4, 5, 6, i128::MIN, i128::MAX]),
    );
    table.insert(
        Ident::new("varchar"),
        OwnedColumn::VarChar(vec![
            "0".to_string(),
            "1".to_string(),
            "2".to_string(),
            "3".to_string(),
            "4".to_string(),
            "5".to_string(),
            "6".to_string(),
            "7".to_string(),
            "8".to_string(),
        ]),
    );
    table.insert(
        Ident::new("scalar"),
        OwnedColumn::Scalar(vec![
            Scalar::from_i64(0),
            Scalar::from_i64(1),
            Scalar::from_i64(2),
            Scalar::from_i64(3),
            Scalar::from_i64(4),
            Scalar::from_i64(5),
            Scalar::from_i64(6),
            Scalar::from_i64(7),
            Scalar::from_i64(8),
        ]),
    );
    table.insert(
        Ident::new("boolean"),
        OwnedColumn::Boolean(vec![
            true, false, true, false, true, false, true, false, true,
        ]),
    );
    assert_eq!(built_table.into_inner(), table);
}

#[test]
fn we_get_inequality_between_tables_with_differing_column_order() {
    let owned_table_a: OwnedTable = owned_table(vec![
        bigint("a", vec![]),
        int128("b", vec![]),
        varchar("c", vec![]),
        boolean("d", vec![]),
        timestamptz(
            "time_stamp",
            PoSQLTimeUnit::Second,
            PoSQLTimeZone::utc(),
            vec![],
        ),
    ]);
    let owned_table_b: OwnedTable = owned_table(vec![
        boolean("d", vec![]),
        int128("b", vec![]),
        bigint("a", vec![]),
        varchar("c", vec![]),
        timestamptz(
            "time_stamp",
            PoSQLTimeUnit::Second,
            PoSQLTimeZone::utc(),
            vec![],
        ),
    ]);
    assert_ne!(owned_table_a, owned_table_b);
}

#[test]
fn we_get_inequality_between_tables_with_differing_data() {
    let owned_table_a: OwnedTable = owned_table(vec![
        bigint("a", vec![0]),
        int128("b", vec![0]),
        varchar("c", vec!["0".to_string()]),
        boolean("d", vec![true]),
        timestamptz(
            "time_stamp",
            PoSQLTimeUnit::Second,
            PoSQLTimeZone::utc(),
            vec![1_625_072_400],
        ),
    ]);
    let owned_table_b: OwnedTable = owned_table(vec![
        bigint("a", vec![1]),
        int128("b", vec![0]),
        varchar("c", vec!["0".to_string()]),
        boolean("d", vec![true]),
        timestamptz(
            "time_stamp",
            PoSQLTimeUnit::Second,
            PoSQLTimeZone::utc(),
            vec![1_625_076_000],
        ),
    ]);
    assert_ne!(owned_table_a, owned_table_b);
}

#[test]
fn we_cannot_create_an_owned_table_with_differing_column_lengths() {
    assert!(matches!(
        OwnedTable::try_from_iter(vec![
            (Ident::new("a"), OwnedColumn::BigInt(vec![0])),
            (Ident::new("b"), OwnedColumn::BigInt(vec![])),
        ]),
        Err(OwnedTableError::ColumnLengthMismatch)
    ));
}

#[test]
fn index_map_insert_with_an_equal_key_replaces_in_place() {
    let mut map = IndexMap::default();
    map.insert(Ident::new("a"), OwnedColumn::BigInt(vec![1]));
    map.insert(Ident::new("b"), OwnedColumn::BigInt(vec![2]));
    map.insert(Ident::new("a"), OwnedColumn::BigInt(vec![3]));
    assert_eq!(map.len(), 2);
    assert_eq!(map.get(&Ident::new("a")), Some(&OwnedColumn::BigInt(vec![3])));
    assert_eq!(map.get(&Ident::new("b")), Some(&OwnedColumn::BigInt(vec![2])));
    assert_eq!(map.get(&Ident::new("c")), None);
}

#[test]
fn index_map_equality_ignores_entry_order() {
    let mut map_a = IndexMap::default();
    map_a.insert(Ident::new("a"), OwnedColumn::BigInt(vec![1]));
    map_a.insert(Ident::new("b"), OwnedColumn::Boolean(vec![true]));
    let mut map_b = IndexMap::default();
    map_b.insert(Ident::new("b"), OwnedColumn::Boolean(vec![true]));
    map_b.insert(Ident::new("a"), OwnedColumn::BigInt(vec![1]));
    assert_eq!(map_a, map_b);
    map_b.insert(Ident::new("a"), OwnedColumn::BigInt(vec![2]));
    assert_ne!(map_a, map_b);
}
