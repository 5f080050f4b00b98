//! The set of tunables and callback hooks that a host hands to the engine,
//! consumed exactly once when a virtual machine is constructed, and the small
//! value type that describes a foreign class's lifecycle callbacks.
//!
//! The engine receives callbacks as C function pointers.  The model identifies
//! a host callback by an opaque token chosen by the host; the unverified rim
//! that talks to the real engine maps each token to the function it stands
//! for.

use crate::types::Pointer;
use vstd::prelude::*;

verus! {

/// The stock initial heap size the engine configures itself with, in bytes.
pub const DEFAULT_INITIAL_HEAP_BYTES: usize = 10485760;

/// The stock heap size below which the engine does not collect, in bytes.
pub const DEFAULT_MIN_HEAP_BYTES: usize = 1048576;

/// The stock percentage by which the engine grows its heap after a collection.
pub const DEFAULT_HEAP_GROWTH_PERCENT: i32 = 50;

/// What a configuration says about one callback hook.
#[derive(Clone, Copy, PartialEq, Eq, Structural, Debug)]
pub enum HookSetting {
    /// Leave the hook to the engine's own built-in behaviour.
    EngineDefault,
    /// Use this library's default for the hook (printing to standard output
    /// for the write hook, a formatted diagnostic line for the error hook).
    LibraryDefault,
    /// Use the host callback identified by this token.
    Host(u64),
}

/// The tunables and hooks consumed once at virtual-machine construction.
///
/// Setters called after the configuration has been consumed act on an inert
/// copy and have no effect on the constructed machine.
#[derive(Clone, Copy, PartialEq, Eq, Structural, Debug)]
pub struct Configuration {
    /// The memory-allocator override.
    pub reallocate_fn: HookSetting,
    /// The hook that loads the source text of an imported module.
    pub load_module_fn: HookSetting,
    /// The hook that resolves a foreign method declaration to a host function.
    pub bind_foreign_method_fn: HookSetting,
    /// The hook that resolves a foreign class declaration to its lifecycle
    /// callbacks.
    pub bind_foreign_class_fn: HookSetting,
    /// The hook that receives script output.
    pub write_fn: HookSetting,
    /// The hook that receives compile-time and runtime diagnostics.
    pub error_fn: HookSetting,
    /// The heap size the engine starts with, in bytes.
    pub initial_heap_size: usize,
    /// The heap size below which the engine does not collect, in bytes.
    pub min_heap_size: usize,
    /// The percentage by which the engine grows its heap after a collection.
    pub heap_growth_percent: i32,
    /// An opaque value stashed on the engine instance, reachable from any
    /// callback.
    pub user_data: Pointer,
}

impl Configuration {
    /// A configuration pre-populated with the engine's defaults, except that
    /// the write and error hooks are set to this library's defaults, which
    /// mimic a command-line interpreter.
    pub fn new() -> (cfg: Configuration)
        ensures
            cfg.reallocate_fn == HookSetting::EngineDefault,
            cfg.load_module_fn == HookSetting::EngineDefault,
            cfg.bind_foreign_method_fn == HookSetting::EngineDefault,
            cfg.bind_foreign_class_fn == HookSetting::EngineDefault,
            cfg.write_fn == HookSetting::LibraryDefault,
            cfg.error_fn == HookSetting::LibraryDefault,
            cfg.initial_heap_size == DEFAULT_INITIAL_HEAP_BYTES,
            cfg.min_heap_size == DEFAULT_MIN_HEAP_BYTES,
            cfg.heap_growth_percent == DEFAULT_HEAP_GROWTH_PERCENT,
            cfg.user_data == 0usize,
    {
        Configuration {
            reallocate_fn: HookSetting::EngineDefault,
            load_module_fn: HookSetting::EngineDefault,
            bind_foreign_method_fn: HookSetting::EngineDefault,
            bind_foreign_class_fn: HookSetting::EngineDefault,
            write_fn: HookSetting::LibraryDefault,
            error_fn: HookSetting::LibraryDefault,
            initial_heap_size: DEFAULT_INITIAL_HEAP_BYTES,
            min_heap_size: DEFAULT_MIN_HEAP_BYTES,
            heap_growth_percent: DEFAULT_HEAP_GROWTH_PERCENT,
            user_data: 0,
        }
    }

    /// Assigns the memory-allocator hook.
    pub fn set_reallocate_fn(&mut self, f: HookSetting)
        ensures
            *final(self) == (Configuration { reallocate_fn: f, ..*old(self) }),
    {
        self.reallocate_fn = f;
    }

    /// Assigns the module-loader hook.
    pub fn set_load_module_fn(&mut self, f: HookSetting)
        ensures
            *final(self) == (Configuration { load_module_fn: f, ..*old(self) }),
    {
        self.load_module_fn = f;
    }

    /// Assigns the foreign-method binder hook.
    pub fn set_bind_foreign_method_fn(&mut self, f: HookSetting)
        ensures
            *final(self) == (Configuration { bind_foreign_method_fn: f, ..*old(self) }),
    {
        self.bind_foreign_method_fn = f;
    }

    /// Assigns the foreign-class binder hook.
    pub fn set_bind_foreign_class_fn(&mut self, f: HookSetting)
        ensures
            *final(self) == (Configuration { bind_foreign_class_fn: f, ..*old(self) }),
    {
        self.bind_foreign_class_fn = f;
    }

    /// Assigns the write hook.
    pub fn set_write_fn(&mut self, f: HookSetting)
        ensures
            *final(self) == (Configuration { write_fn: f, ..*old(self) }),
    {
        self.write_fn = f;
    }

    /// Assigns the error hook.
    pub fn set_error_fn(&mut self, f: HookSetting)
        ensures
            *final(self) == (Configuration { error_fn: f, ..*old(self) }),
    {
        self.error_fn = f;
    }

    /// Assigns the initial heap size, in bytes.
    pub fn set_initial_heap_size(&mut self, size: usize)
        ensures
            *final(self) == (Configuration { initial_heap_size: size, ..*old(self) }),
    {
        self.initial_heap_size = size;
    }

    /// Assigns the heap size below which the engine does not collect, in
    /// bytes.
    pub fn set_min_heap_size(&mut self, size: usize)
        ensures
            *final(self) == (Configuration { min_heap_size: size, ..*old(self) }),
    {
        self.min_heap_size = size;
    }

    /// Assigns the percentage by which the engine grows its heap after a
    /// collection.
    pub fn set_heap_growth_percent(&mut self, percent: i32)
        ensures
            *final(self) == (Configuration { heap_growth_percent: percent, ..*old(self) }),
    {
        self.heap_growth_percent = percent;
    }

    /// Assigns the opaque user-data value stashed on the engine instance at
    /// construction.
    pub fn set_user_data(&mut self, data: Pointer)
        ensures
            *final(self) == (Configuration { user_data: data, ..*old(self) }),
    {
        self.user_data = data;
    }
}

/// The pair of lifecycle callbacks for a host-defined foreign class: an
/// allocator, run when a script constructs an instance, and a finalizer, run
/// when the engine collects one.  An unset callback means the engine's
/// built-in behaviour.  The layer only carries the pair; it is handed to the
/// engine by the foreign-class binder hook.
#[derive(Clone, Copy, PartialEq, Eq, Structural, Debug)]
pub struct ForeignClassMethods {
    /// The token of the host's allocate callback, if any.
    pub allocate: Option<u64>,
    /// The token of the host's finalize callback, if any.
    pub finalize: Option<u64>,
}

impl ForeignClassMethods {
    /// A pair with both callbacks unset.
    pub fn new() -> (m: ForeignClassMethods)
        ensures
            m.allocate is None,
            m.finalize is None,
    {
        ForeignClassMethods { allocate: None, finalize: None }
    }

    /// Assigns the allocate callback.
    pub fn set_allocate_fn(&mut self, f: Option<u64>)
        ensures
            *final(self) == (ForeignClassMethods { allocate: f, ..*old(self) }),
    {
        self.allocate = f;
    }

    /// Assigns the finalize callback.
    pub fn set_finalize_fn(&mut self, f: Option<u64>)
        ensures
            *final(self) == (ForeignClassMethods { finalize: f, ..*old(self) }),
    {
        self.finalize = f;
    }

    /// The pair as the binder hook hands it to the engine.
    pub fn get(&self) -> (m: (Option<u64>, Option<u64>))
        ensures
            m == (self.allocate, self.finalize),
    {
        (self.allocate, self.finalize)
    }
}

} // verus!
