use scarefire::handle::GLHandle;
use scarefire::hash::str_hash;
use scarefire::program::{
    build_uniform_table, find_location_in, HashCollisionError, Program, UniformValue,
};

#[test]
fn fnv1a_known_values() {
    assert_eq!(str_hash(""), 2166136261);
    assert_eq!(str_hash("a"), 0xe40c292c);
    assert_eq!(str_hash("viewProj"), 3961013067);
}

#[test]
fn uniform_cache_resolves_known_and_misses_unknown() {
    let entries = vec![("viewProj".to_string(), 0u32), ("sunColor".to_string(), 1u32)];
    let program = Program::from_uniform_entries(GLHandle::new(5), &entries, false).unwrap();
    assert_eq!(program.find_location(str_hash("viewProj")), Some(0));
    assert_eq!(program.find_location(str_hash("sunColor")), Some(1));
    assert_eq!(program.find_location(str_hash("unknown")), None);
}

#[test]
fn uniform_table_is_sorted_and_complete() {
    let names = ["alpha", "beta", "gamma", "delta", "epsilon"];
    let entries: Vec<(String, u32)> =
        names.iter().enumerate().map(|(i, n)| (n.to_string(), i as u32)).collect();
    let table = build_uniform_table(&entries).unwrap();
    assert_eq!(table.len(), entries.len());
    for w in table.windows(2) {
        assert!(w[0].hash < w[1].hash);
    }
    for (i, n) in names.iter().enumerate() {
        assert_eq!(find_location_in(&table, str_hash(n)), Some(i as u32));
    }
}

#[test]
fn colliding_hashes_are_rejected() {
    // the same name twice hashes alike, which the table must refuse
    let entries = vec![("sunColor".to_string(), 0u32), ("sunColor".to_string(), 1u32)];
    assert_eq!(build_uniform_table(&entries).err(), Some(HashCollisionError));
}

#[test]
fn set_uniform_is_noop_for_unknown_name() {
    let entries = vec![("viewProj".to_string(), 4u32)];
    let program = Program::from_uniform_entries(GLHandle::new(9), &entries, false).unwrap();
    let cmd = program.set_uniform(str_hash("viewProj"), UniformValue::U32(77)).unwrap();
    assert_eq!(cmd.location, 4);
    assert_eq!(cmd.value, UniformValue::U32(77));
    assert!(program.set_uniform(str_hash("missing"), UniformValue::Scalar(1)).is_none());
}

#[test]
fn program_records_handle_and_kind() {
    let program = Program::from_uniform_entries(GLHandle::new(11), &Vec::new(), true).unwrap();
    assert_eq!(program.handle(), 11);
    assert!(program.is_compute());
}

#[test]
fn handle_validity() {
    assert!(GLHandle::new(3).is_valid());
    assert!(!GLHandle::new(0).is_valid());
    assert_eq!(GLHandle::new(3).get(), 3);
}
