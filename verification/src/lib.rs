//! A safety layer over an embeddable scripting engine's slot-based host
//! interface.
//!
//! The underlying engine exchanges values with host code through a small
//! register file of numbered "slots".  Raw use of that interface is
//! error-prone: slots must be grown before they are written, reads must match
//! the runtime type of the slot, list indices must be bounds-checked, and
//! engine handles must be released exactly once.  This crate states those
//! rules as contracts and proves that the layer obeys them, over an explicit
//! model of the engine instance's observable state.

pub mod config;
pub mod text;
pub mod types;
pub mod vm;

pub use config::Configuration;
pub use config::ForeignClassMethods;
pub use config::HookSetting;
pub use types::ErrorType;
pub use types::InterpretResult;
pub use types::Pointer;
pub use types::SlotType;
pub use vm::Engine;
pub use vm::Handle;
pub use vm::SlotContent;
pub use vm::VM;
