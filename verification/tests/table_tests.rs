//! Tests for the resource table: distinct handles, zero reserved, and
//! lookups failing for handles never issued.

use deno_in_deno::table::ResourceTable;
use deno_in_deno::table::TableError;

#[test]
fn allocate_yields_distinct_nonzero_handles() {
    let mut table: ResourceTable<String> = ResourceTable::new();
    let k = 8;
    let mut handles = Vec::new();
    for i in 0..k {
        let h = table.allocate(format!("object {}", i));
        assert_ne!(h, 0, "zero is reserved");
        assert!(!handles.contains(&h), "handle reused");
        handles.push(h);
    }
    assert_eq!(table.len(), k);
}

#[test]
fn get_returns_the_stored_object() {
    let mut table: ResourceTable<u64> = ResourceTable::new();
    let h1 = table.allocate(11);
    let h2 = table.allocate(22);
    assert_eq!(table.get(h1), Ok(&11));
    assert_eq!(table.get(h2), Ok(&22));
}

#[test]
fn get_on_unissued_handle_fails_with_not_found() {
    let mut table: ResourceTable<u64> = ResourceTable::new();
    assert_eq!(table.get(1), Err(TableError::NotFound));
    let h = table.allocate(5);
    assert_eq!(table.get(0), Err(TableError::NotFound));
    assert_eq!(table.get(h + 1), Err(TableError::NotFound));
    assert_eq!(table.get(999), Err(TableError::NotFound));
}

#[test]
fn handles_stay_valid_as_the_table_grows() {
    let mut table: ResourceTable<&str> = ResourceTable::new();
    let first = table.allocate("first");
    for _ in 0..10 {
        table.allocate("later");
    }
    assert_eq!(table.get(first), Ok(&"first"));
}
