//! The perfect-hash builder: string values, hash parameters, table
//! building, and verified lookups.

use hhat_core::ir::TypesDef;
use hhat_core::utils::{find_phf_params, gen_phf, get_hash, str_to_int, TypeTableError};

fn strings(names: &[&str]) -> Vec<String> {
    names.iter().map(|s| s.to_string()).collect()
}

/// The polynomial string value, on exact expected numbers.
#[test]
fn str_to_int_exact_values() {
    assert_eq!(str_to_int(&"".to_string()), 0);
    assert_eq!(str_to_int(&"a".to_string()), 97);
    assert_eq!(str_to_int(&"ab".to_string()), 97 * 257 + 98);
    assert_eq!(str_to_int(&"int".to_string()), 6963531);
    assert_eq!(str_to_int(&"bool".to_string()), 1670870188);
    assert_eq!(str_to_int(&"qubit".to_string()), 494951682597);
}

/// The mixing hash, on exact expected numbers.
#[test]
fn get_hash_exact_values() {
    // with r = 0 the value xors with itself: always slot 0
    assert_eq!(get_hash(&"a".to_string(), 1, 0, 7), 0);
    assert_eq!(get_hash(&"qubit".to_string(), 123, 0, 9), 0);
    assert_eq!(get_hash(&"ab".to_string(), 3, 5, 11), 9);
}

/// The search takes the first collision-free pair: for an empty or
/// single-name set that is `(1, 0)`.
#[test]
fn find_params_trivial_sets() {
    assert_eq!(find_phf_params(strings(&[])), Some((1, 0)));
    assert_eq!(find_phf_params(strings(&["only"])), Some((1, 0)));
}

/// Two names force the search past `r = 0`, where everything collides.
#[test]
fn find_params_two_names() {
    let (a, r) = find_phf_params(strings(&["x", "y"])).unwrap();
    assert!(a >= 1 && r > 0);
    let h1 = get_hash(&"x".to_string(), a, r, 2);
    let h2 = get_hash(&"y".to_string(), a, r, 2);
    assert_ne!(h1, h2);
}

/// The type-table scenario: a table for `["int", "bool", "qubit"]`
/// finds parameters, resolves every member to its own slot, and
/// reports a miss for a name outside the set.
#[test]
fn type_table_scenario() {
    let names = strings(&["int", "bool", "qubit"]);
    let mut table: TypesDef<3> = TypesDef::new();
    table.push(&names).unwrap();

    let qubit_slot = table.lookup(&"qubit".to_string()).unwrap();
    let int_slot = table.lookup(&"int".to_string()).unwrap();
    let bool_slot = table.lookup(&"bool".to_string()).unwrap();
    assert!(qubit_slot < 3 && int_slot < 3 && bool_slot < 3);
    assert_ne!(qubit_slot, int_slot);
    assert_ne!(qubit_slot, bool_slot);
    assert_ne!(int_slot, bool_slot);
    // the parameters the search finds for this set
    assert_eq!((int_slot, bool_slot, qubit_slot), (0, 1, 2));

    // "float" hashes into an occupied slot, but the content check
    // rules the false hit out
    assert_eq!(table.lookup(&"float".to_string()), None);
    assert_eq!(table.lookup(&"".to_string()), None);
}

/// A built table over several distinct short ASCII names: every member
/// resolves to a distinct in-range index, every non-member misses.
#[test]
fn table_members_distinct_nonmembers_miss() {
    let names = strings(&["u16", "u32", "u64", "bool", "qubit"]);
    let mut table: TypesDef<5> = TypesDef::new();
    table.push(&names).unwrap();

    let mut seen = [false; 5];
    for name in &names {
        let slot = table.lookup(name).unwrap();
        assert!(slot < 5);
        assert!(!seen[slot]);
        seen[slot] = true;
    }
    for miss in ["u8", "i32", "float", "Qubit", "bool "] {
        assert_eq!(table.lookup(&miss.to_string()), None);
    }
}

/// A duplicate input name fails the build with `DuplicateName`, before
/// any search, and no table is produced.
#[test]
fn duplicate_name_rejected() {
    let names = strings(&["int", "bool", "int"]);
    assert_eq!(
        gen_phf(names.clone(), 3),
        Err(TypeTableError::DuplicateName)
    );

    let mut table: TypesDef<3> = TypesDef::new();
    assert_eq!(table.push(&names), Err(TypeTableError::DuplicateName));
    // the table is unchanged: still empty, every lookup misses
    assert_eq!(table.lookup(&"int".to_string()), None);
}

/// The free-standing build returns the mapping with each name at the
/// index its hash selects.
#[test]
fn gen_phf_mapping_layout() {
    let names = strings(&["int", "bool", "qubit"]);
    let (mapping, a, r) = gen_phf(names.clone(), 3).unwrap();
    assert_eq!(mapping.len(), 3);
    for name in &names {
        let idx = get_hash(name, a, r, 3) as usize;
        assert_eq!(mapping[idx].as_deref(), Some(name.as_str()));
    }
    // this set resolves at the first workable parameters
    assert_eq!((a, r), (1, 4));
    assert_eq!(mapping[0].as_deref(), Some("int"));
    assert_eq!(mapping[1].as_deref(), Some("bool"));
    assert_eq!(mapping[2].as_deref(), Some("qubit"));
}

/// An empty name list builds an empty table at the first parameters.
#[test]
fn gen_phf_empty() {
    let (mapping, a, r) = gen_phf(Vec::new(), 0).unwrap();
    assert!(mapping.is_empty());
    assert_eq!((a, r), (1, 0));
}

/// The table type's own helper functions agree with the free ones.
#[test]
fn types_def_helpers() {
    let table: TypesDef<3> = TypesDef::new();
    assert_eq!(table.str_to_int("int"), 6963531);
    assert_eq!(table.hash_func("ab", 3, 5, 11), 9);
    let params = table.find_perfect_hash_params(&strings(&["int", "bool", "qubit"]));
    assert_eq!(params, Some((1, 4)));
    let (mapping, a, r) = table
        .gen_perfect_hash(&strings(&["int", "bool", "qubit"]))
        .unwrap();
    assert_eq!((a, r), (1, 4));
    assert_eq!(mapping.len(), 3);
}

/// Two distinct names with the same polynomial value collide for
/// every parameter pair, so the bounded search is exhausted and the
/// build reports `NoPerfectHashFound`.
#[test]
fn no_perfect_hash_reported() {
    // "ab" folds to 97 * 257 + 98 = 25027, and so does the single
    // character U+61C3
    let twin = "\u{61C3}".to_string();
    assert_eq!(str_to_int(&"ab".to_string()), str_to_int(&twin));
    let names = vec!["ab".to_string(), twin];
    assert_eq!(
        gen_phf(names.clone(), 2),
        Err(TypeTableError::NoPerfectHashFound)
    );
    assert_eq!(find_phf_params(names), None);
}

/// A fresh table misses every query.
#[test]
fn fresh_table_misses() {
    let table: TypesDef<4> = TypesDef::new();
    assert_eq!(table.lookup(&"anything".to_string()), None);
    let empty: TypesDef<0> = TypesDef::new();
    assert_eq!(empty.lookup(&"anything".to_string()), None);
}
