use wren_vm::Configuration;
use wren_vm::SlotType;
use wren_vm::VM;

#[test]
fn bool_round_trip() {
    let mut vm = VM::new(Configuration::new());
    vm.set_slot_bool(0, true);
    assert_eq!(vm.get_slot_bool(0), Some(true));
    vm.set_slot_bool(0, false);
    assert_eq!(vm.get_slot_bool(0), Some(false));
}

#[test]
fn double_round_trip() {
    let mut vm = VM::new(Configuration::new());
    let bits = (1.5f64).to_bits();
    vm.set_slot_double(0, bits);
    assert_eq!(vm.get_slot_double(0), Some(bits));
    assert_eq!(f64::from_bits(vm.get_slot_double(0).unwrap()), 1.5f64);
    let neg = (-0.25f64).to_bits();
    vm.set_slot_double(3, neg);
    assert_eq!(vm.get_slot_double(3), Some(neg));
}

#[test]
fn bytes_round_trip() {
    let mut vm = VM::new(Configuration::new());
    vm.set_slot_bytes(1, &[104u8, 105u8, 0u8, 33u8]);
    assert_eq!(vm.get_slot_bytes(1), Some(vec![104u8, 105u8, 0u8, 33u8]));
}

#[test]
fn string_round_trip() {
    let mut vm = VM::new(Configuration::new());
    vm.set_slot_string(2, "hello world");
    assert_eq!(vm.get_slot_string(2), Some(String::from("hello world")));
    assert_eq!(vm.get_slot_bytes(2), Some(b"hello world".to_vec()));
}

#[test]
fn string_read_stops_at_nul() {
    let mut vm = VM::new(Configuration::new());
    vm.set_slot_bytes(0, &[104u8, 105u8, 0u8, 33u8]);
    assert_eq!(vm.get_slot_string(0), Some(String::from("hi")));
}

#[test]
fn mismatched_reads_are_absent() {
    let mut vm = VM::new(Configuration::new());
    vm.set_slot_double(0, (6.25f64).to_bits());
    assert_eq!(vm.get_slot_string(0), None);
    assert_eq!(vm.get_slot_bytes(0), None);
    assert_eq!(vm.get_slot_bool(0), None);
    assert_eq!(vm.get_slot_foreign(0), None);
    vm.set_slot_string(1, "text");
    assert_eq!(vm.get_slot_double(1), None);
    assert_eq!(vm.get_slot_bool(1), None);
    vm.set_slot_bool(2, true);
    assert_eq!(vm.get_slot_double(2), None);
    assert_eq!(vm.get_slot_string(2), None);
}

#[test]
fn writes_grow_the_register_file() {
    let mut vm = VM::new(Configuration::new());
    assert_eq!(vm.get_slot_count(), 0);
    vm.set_slot_bool(7, true);
    assert!(vm.get_slot_count() > 7);
    assert_eq!(vm.get_slot_count(), 8);
    vm.set_slot_null(2);
    assert_eq!(vm.get_slot_count(), 8);
    assert_eq!(vm.get_slot_bool(7), Some(true));
}

#[test]
fn slot_types_are_reported() {
    let mut vm = VM::new(Configuration::new());
    vm.set_slot_bool(0, false);
    vm.set_slot_double(1, 0u64);
    vm.set_slot_string(2, "s");
    vm.set_slot_null(3);
    vm.set_slot_new_list(4);
    assert_eq!(vm.get_slot_type(0), SlotType::Bool);
    assert_eq!(vm.get_slot_type(1), SlotType::Num);
    assert_eq!(vm.get_slot_type(2), SlotType::Str);
    assert_eq!(vm.get_slot_type(3), SlotType::Null);
    assert_eq!(vm.get_slot_type(4), SlotType::List);
}

#[test]
fn variable_lookup_fills_the_slot_engine_defined() {
    let mut vm = VM::new(Configuration::new());
    vm.get_variable("main", "Game", 0);
    assert_eq!(vm.get_slot_count(), 1);
    assert_eq!(vm.get_slot_type(0), SlotType::Unknown);
    assert_eq!(vm.get_slot_bool(0), None);
}

#[test]
fn foreign_round_trip() {
    let mut vm = VM::new(Configuration::new());
    vm.get_variable("main", "Point", 0);
    let p = vm.set_slot_new_foreign(1, 0, 16);
    assert_eq!(vm.get_slot_type(1), SlotType::Foreign);
    assert_eq!(vm.get_slot_foreign(1), Some(p));
}

#[test]
fn user_data_round_trip() {
    let mut cfg = Configuration::new();
    cfg.set_user_data(41);
    let mut vm = VM::new(cfg);
    assert_eq!(vm.get_user_data(), 41);
    vm.set_user_data(42);
    assert_eq!(vm.get_user_data(), 42);
}

#[test]
fn collect_garbage_preserves_slots() {
    let mut vm = VM::new(Configuration::new());
    vm.set_slot_string(0, "kept");
    vm.collect_garbage();
    assert_eq!(vm.get_slot_string(0), Some(String::from("kept")));
}

#[test]
fn abort_fiber_sets_the_abort_flag() {
    let mut vm = VM::new(Configuration::new());
    vm.set_slot_string(0, "boom");
    assert!(!vm.engine.aborted);
    vm.abort_fiber(0);
    assert!(vm.engine.aborted);
}

#[test]
fn ownership_and_teardown() {
    let mut vm = VM::new(Configuration::new());
    assert!(vm.owned);
    assert!(vm.engine.alive);
    vm.shutdown();
    assert!(!vm.engine.alive);

    let borrowed = VM::from_ptr(wren_vm::Engine::new(Configuration::new()));
    assert!(!borrowed.owned);
    assert!(borrowed.engine.alive);
}
