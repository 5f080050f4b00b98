use wren_vm::config::DEFAULT_HEAP_GROWTH_PERCENT;
use wren_vm::config::DEFAULT_INITIAL_HEAP_BYTES;
use wren_vm::config::DEFAULT_MIN_HEAP_BYTES;
use wren_vm::text::default_error_message;
use wren_vm::text::has_interior_nul;
use wren_vm::text::i32_dec;
use wren_vm::text::module_file_candidates;
use wren_vm::text::u32_dec;
use wren_vm::types::interpret_result_from_code;
use wren_vm::Configuration;
use wren_vm::ErrorType;
use wren_vm::ForeignClassMethods;
use wren_vm::HookSetting;
use wren_vm::InterpretResult;
use wren_vm::VM;

#[test]
fn configuration_defaults() {
    let cfg = Configuration::new();
    assert_eq!(cfg.write_fn, HookSetting::LibraryDefault);
    assert_eq!(cfg.error_fn, HookSetting::LibraryDefault);
    assert_eq!(cfg.reallocate_fn, HookSetting::EngineDefault);
    assert_eq!(cfg.load_module_fn, HookSetting::EngineDefault);
    assert_eq!(cfg.bind_foreign_method_fn, HookSetting::EngineDefault);
    assert_eq!(cfg.bind_foreign_class_fn, HookSetting::EngineDefault);
    assert_eq!(cfg.initial_heap_size, DEFAULT_INITIAL_HEAP_BYTES);
    assert_eq!(cfg.min_heap_size, DEFAULT_MIN_HEAP_BYTES);
    assert_eq!(cfg.heap_growth_percent, DEFAULT_HEAP_GROWTH_PERCENT);
    assert_eq!(cfg.user_data, 0);
}

#[test]
fn configuration_setters_assign_their_fields() {
    let mut cfg = Configuration::new();
    cfg.set_reallocate_fn(HookSetting::Host(1));
    cfg.set_load_module_fn(HookSetting::Host(2));
    cfg.set_bind_foreign_method_fn(HookSetting::Host(3));
    cfg.set_bind_foreign_class_fn(HookSetting::Host(4));
    cfg.set_write_fn(HookSetting::Host(5));
    cfg.set_error_fn(HookSetting::Host(6));
    cfg.set_initial_heap_size(2048);
    cfg.set_min_heap_size(1024);
    cfg.set_heap_growth_percent(75);
    cfg.set_user_data(7);
    assert_eq!(cfg.reallocate_fn, HookSetting::Host(1));
    assert_eq!(cfg.load_module_fn, HookSetting::Host(2));
    assert_eq!(cfg.bind_foreign_method_fn, HookSetting::Host(3));
    assert_eq!(cfg.bind_foreign_class_fn, HookSetting::Host(4));
    assert_eq!(cfg.write_fn, HookSetting::Host(5));
    assert_eq!(cfg.error_fn, HookSetting::Host(6));
    assert_eq!(cfg.initial_heap_size, 2048);
    assert_eq!(cfg.min_heap_size, 1024);
    assert_eq!(cfg.heap_growth_percent, 75);
    assert_eq!(cfg.user_data, 7);
}

#[test]
fn configuration_is_consumed_at_construction() {
    let mut cfg = Configuration::new();
    cfg.set_user_data(9);
    let mut vm = VM::new(cfg);
    // Later mutation of a copy has no effect on the constructed machine.
    cfg.set_user_data(100);
    assert_eq!(vm.get_user_data(), 9);
}

#[test]
fn foreign_class_methods_start_unset() {
    let mut m = ForeignClassMethods::new();
    assert_eq!(m.get(), (None, None));
    m.set_allocate_fn(Some(10));
    m.set_finalize_fn(Some(11));
    assert_eq!(m.get(), (Some(10), Some(11)));
    m.set_finalize_fn(None);
    assert_eq!(m.get(), (Some(10), None));
}

#[test]
fn decimal_rendering() {
    assert_eq!(u32_dec(0), "0");
    assert_eq!(u32_dec(7), "7");
    assert_eq!(u32_dec(10), "10");
    assert_eq!(u32_dec(90210), "90210");
    assert_eq!(i32_dec(1234), "1234");
    assert_eq!(i32_dec(-56), "-56");
    assert_eq!(i32_dec(i32::MIN), "-2147483648");
    assert_eq!(i32_dec(i32::MAX), "2147483647");
}

#[test]
fn default_error_lines() {
    assert_eq!(
        default_error_message(ErrorType::Compile, "main", 3, "Expected expression."),
        "[main line 3] Expected expression."
    );
    assert_eq!(
        default_error_message(ErrorType::Runtime, "main", 0, "Null does not implement 'foo'."),
        "Null does not implement 'foo'."
    );
    assert_eq!(
        default_error_message(ErrorType::StackTrace, "main", 12, "(script)"),
        "[main line 12] in (script)"
    );
}

#[test]
fn module_candidates_follow_the_convention() {
    let (direct, nested) = module_file_candidates("graphics");
    assert_eq!(direct, "graphics.wren");
    assert_eq!(nested, "graphics/module.wren");
}

#[test]
fn interior_nul_detection() {
    assert!(!has_interior_nul("plain text"));
    assert!(!has_interior_nul(""));
    assert!(has_interior_nul("cut\0here"));
}

#[test]
fn interpret_result_codes() {
    assert_eq!(interpret_result_from_code(0), InterpretResult::Success);
    assert_eq!(interpret_result_from_code(1), InterpretResult::CompileError);
    assert_eq!(interpret_result_from_code(2), InterpretResult::RuntimeError);
}
