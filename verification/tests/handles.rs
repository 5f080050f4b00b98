use wren_vm::Configuration;
use wren_vm::SlotType;
use wren_vm::VM;

#[test]
fn releasing_the_only_reference_releases_once() {
    let mut vm = VM::new(Configuration::new());
    vm.set_slot_string(0, "value");
    let h = vm.get_slot_handle(0);
    assert_eq!(vm.handle_ref_count(&h), 1);
    assert_eq!(vm.handle_release_calls(0), 0);
    let released = vm.release_handle(h);
    assert!(released);
    assert_eq!(vm.handle_release_calls(0), 1);
}

#[test]
fn n_clones_and_n_plus_one_drops_release_exactly_once() {
    let mut vm = VM::new(Configuration::new());
    vm.set_slot_bool(0, true);
    let first = vm.get_slot_handle(0);
    let mut owners = vec![first];
    for _ in 0..5 {
        let another = {
            let last = owners.last().unwrap();
            vm.clone_handle(last)
        };
        owners.push(another);
    }
    assert_eq!(vm.handle_ref_count(&owners[0]), 6);
    // Drop in a scrambled order: the engine release happens exactly once,
    // on the last drop, whichever owner that is.
    let mut releases = 0;
    for pick in [3, 0, 4, 1, 5, 2] {
        let h = owners.remove(if pick < owners.len() { pick } else { 0 });
        if vm.release_handle(h) {
            releases += 1;
        }
    }
    assert_eq!(releases, 1);
    assert_eq!(vm.handle_release_calls(0), 1);
}

#[test]
fn a_value_handle_writes_its_captured_value_back() {
    let mut vm = VM::new(Configuration::new());
    vm.set_slot_string(0, "captured");
    let h = vm.get_slot_handle(0);
    vm.set_slot_string(0, "overwritten");
    vm.set_slot_handle(4, &h);
    assert_eq!(vm.get_slot_string(4), Some(String::from("captured")));
    assert_eq!(vm.get_slot_string(0), Some(String::from("overwritten")));
    vm.release_handle(h);
}

#[test]
fn a_call_handle_is_opaque_in_a_slot() {
    let mut vm = VM::new(Configuration::new());
    let h = vm.make_call_handle("update(_)");
    vm.set_slot_handle(0, &h);
    assert_eq!(vm.get_slot_type(0), SlotType::Unknown);
    assert!(vm.release_handle(h));
}

#[test]
fn distinct_handles_have_distinct_counts() {
    let mut vm = VM::new(Configuration::new());
    vm.set_slot_null(0);
    let a = vm.get_slot_handle(0);
    let b = vm.get_slot_handle(0);
    let a2 = vm.clone_handle(&a);
    assert_eq!(vm.handle_ref_count(&a), 2);
    assert_eq!(vm.handle_ref_count(&b), 1);
    assert!(!vm.release_handle(a));
    assert!(vm.release_handle(b));
    assert!(vm.release_handle(a2));
    assert_eq!(vm.handle_release_calls(0), 1);
    assert_eq!(vm.handle_release_calls(1), 1);
}
