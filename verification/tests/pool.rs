use tinycomp::constdata::ConstData;
use tinycomp::symboltable::{SymbolTable, VariableType};

#[test]
fn insert_assigns_offsets_in_order() {
    let mut cd = ConstData::new();
    assert_eq!(cd.insert("42"), (0, 2));
    assert_eq!(cd.insert("hello"), (2, 5));
    assert_eq!(cd.insert("7"), (7, 1));
    assert_eq!(cd.get_data().as_slice(), b"42hello7");
}

#[test]
fn lengths_sum_to_blob_length_and_ranges_do_not_overlap() {
    let mut cd = ConstData::new();
    let literals = ["1", "22", "333", "4444", "55555"];
    let mut placements = Vec::new();
    for lit in literals.iter() {
        placements.push(cd.insert(lit));
    }
    let total: u64 = placements.iter().map(|p| p.1).sum();
    assert_eq!(total, cd.get_data().len() as u64);
    for i in 0..placements.len() {
        for j in (i + 1)..placements.len() {
            let (oi, li) = placements[i];
            let (oj, lj) = placements[j];
            assert!(oi + li <= oj || oj + lj <= oi);
        }
    }
}

#[test]
fn reinserting_a_known_literal_returns_the_same_pair_without_growth() {
    let mut cd = ConstData::new();
    let first = cd.insert("97");
    let len_before = cd.get_data().len();
    let second = cd.insert("97");
    assert_eq!(first, second);
    assert_eq!(cd.get_data().len(), len_before);
    // a third literal still lands right after the first
    assert_eq!(cd.insert("8"), (2, 1));
}

#[test]
fn lookups_return_the_recorded_placement() {
    let mut cd = ConstData::new();
    cd.insert("hi");
    cd.insert("there");
    assert_eq!(cd.get_const_index("hi"), 0);
    assert_eq!(cd.get_const_length("hi"), 2);
    assert_eq!(cd.get_const_index("there"), 2);
    assert_eq!(cd.get_const_length("there"), 5);
}

#[test]
fn addresses_are_resolved_against_the_data_section_base() {
    let mut cd = ConstData::new();
    cd.insert("abc");
    cd.insert("d");
    assert_eq!(cd.get_const_address("abc"), 0x8000b0);
    assert_eq!(cd.get_const_address("d"), 0x8000b0 + 3);
    assert_eq!(cd.get_end_of_section(), 0x8000b0 + 4);
}

#[test]
fn shifting_the_section_moves_every_address() {
    let mut cd = ConstData::new();
    cd.insert("x");
    cd.set_data_section_offset(0x100);
    assert_eq!(cd.get_const_address("x"), 0x8000b0 + 0x100);
    assert_eq!(cd.get_end_of_section(), 0x8000b0 + 0x100 + 1);
}

#[test]
fn symbol_table_records_placement_and_type() {
    let mut table = SymbolTable::new();
    table.insert("x", VariableType::Integer);
    table.insert("count", VariableType::Integer);
    assert_eq!(table.get_length(), 6);
    assert_eq!(table.get_var_index("x"), 0);
    assert_eq!(table.get_var_length("x"), 1);
    assert_eq!(table.get_var_index("count"), 1);
    assert_eq!(table.get_var_length("count"), 5);
    assert!(matches!(table.get_var_type("count"), VariableType::Integer));
    table.set_symbol_section_address(0x1000);
    // re-inserting a name makes the new record the one lookups find
    table.insert("x", VariableType::Integer);
    assert_eq!(table.get_var_index("x"), 6);
}
