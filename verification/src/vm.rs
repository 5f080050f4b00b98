//! The virtual machine and its slot, list and handle interfaces.
//!
//! The engine itself — compiler, interpreter, collector — is an opaque C
//! library; what host code observes of an instance through the slot interface
//! is modelled here as explicit state: the slot register file, the string,
//! list and foreign-object stores the slots refer into, the table of
//! outstanding handles with their reference counts, and the user-data word.
//! Strings are immutable byte arrays to the engine, so a string slot resolves
//! to its bytes; lists are mutable heap objects, so a list slot holds a
//! reference into the list store, and copying a slot copies the reference,
//! exactly as the engine does.
//!
//! Every operation that the raw interface leaves undefined outside its
//! preconditions (an out-of-bounds slot, a read of the wrong type, a list
//! index past the end) is either excluded here by `requires` — the original
//! layer fails fast on those — or, for type-mismatched reads, turned into an
//! absent value.

use crate::config::Configuration;
use crate::types::Pointer;
use crate::types::SlotType;
use vstd::prelude::*;
use vstd::slice::slice_to_vec;
use vstd::string::StringSliceAdditionalSpecFns;

verus! {

broadcast use vstd::seq::group_seq_axioms;

/// What one slot of the register file holds.
///
/// A `Str`, `List` or `Foreign` slot refers into the instance's stores by
/// index; `Num` carries the bit pattern of the engine's double-precision
/// number; `Unknown` stands for a value the layer has no further knowledge of
/// (a class object fetched by a variable lookup, a freshly grown slot, the
/// target of a method handle).
#[derive(Clone, Copy, PartialEq, Eq, Structural, Debug)]
pub enum SlotContent {
    /// Null.
    Null,
    /// A boolean.
    Bool(bool),
    /// A number, as the bit pattern of the engine's double.
    Num(u64),
    /// A string, as an index into the string store.
    Str(usize),
    /// A list, as an index into the list store.
    List(usize),
    /// A foreign object, as an index into the foreign store.
    Foreign(usize),
    /// A value of some engine-internal kind.
    Unknown,
}

/// The type tag the engine reports for a slot holding `c`.
pub open spec fn type_of(c: SlotContent) -> SlotType {
    match c {
        SlotContent::Null => SlotType::Null,
        SlotContent::Bool(_) => SlotType::Bool,
        SlotContent::Num(_) => SlotType::Num,
        SlotContent::Str(_) => SlotType::Str,
        SlotContent::List(_) => SlotType::List,
        SlotContent::Foreign(_) => SlotType::Foreign,
        SlotContent::Unknown => SlotType::Unknown,
    }
}

/// What a handle refers to on the engine side.
#[derive(Clone, Copy, PartialEq, Eq, Structural, Debug)]
pub enum HandleTarget {
    /// A callable target resolved from a method signature.
    Method,
    /// The value that occupied a slot when the handle was taken.
    Value(SlotContent),
}

/// The engine-side record of one handle: how many host-side references to it
/// exist, and how many times the engine's release operation has been performed
/// on it.  The layer guarantees `releases` reaches exactly 1, when the last
/// reference goes away.
#[derive(Clone, Copy, PartialEq, Eq, Structural, Debug)]
pub struct HandleEntry {
    /// Outstanding host-side references.
    pub refs: u64,
    /// How many times the engine has been asked to release this handle.
    pub releases: u64,
    /// What the handle refers to.
    pub target: HandleTarget,
}

/// A reference to an engine-managed script value or callable.
///
/// Handles are deliberately neither `Copy` nor `Clone`: every duplication
/// goes through [`VM::clone_handle`] and every disposal through
/// [`VM::release_handle`], so the reference count the instance keeps is
/// exact.  In a host runtime those two calls are what a shared-ownership
/// smart pointer's clone and drop perform.
pub struct Handle {
    idx: usize,
}

impl Handle {
    /// The handle's index in the issuing instance's handle table.
    pub closed spec fn id(self) -> int {
        self.idx as int
    }
}

/// The observable state of one engine instance.
pub struct Engine {
    /// The slot register file.
    pub slots: Vec<SlotContent>,
    /// The string store: each entry the byte array of one engine string.
    pub strings: Vec<Vec<u8>>,
    /// The list store: each entry the elements of one engine list.
    pub lists: Vec<Vec<SlotContent>>,
    /// The foreign-object store: each entry the byte size of one payload.
    pub foreigns: Vec<usize>,
    /// The handle table.
    pub handles: Vec<HandleEntry>,
    /// The opaque user-data word.
    pub user_data: Pointer,
    /// Whether the current fiber has been told to abort.
    pub aborted: bool,
    /// Whether the instance still exists (an owning machine's teardown ends
    /// it).
    pub alive: bool,
    /// The configuration the instance was constructed from.
    pub config: Configuration,
}

impl Engine {
    /// A fresh instance, as the engine constructs one from a configuration.
    pub fn new(config: Configuration) -> (e: Engine)
        ensures
            e.slots@.len() == 0,
            e.strings@.len() == 0,
            e.lists@.len() == 0,
            e.foreigns@.len() == 0,
            e.handles@.len() == 0,
            e.user_data == config.user_data,
            !e.aborted,
            e.alive,
            e.config == config,
    {
        Engine {
            slots: Vec::new(),
            strings: Vec::new(),
            lists: Vec::new(),
            foreigns: Vec::new(),
            handles: Vec::new(),
            user_data: config.user_data,
            aborted: false,
            alive: true,
            config,
        }
    }
}

/// A virtual machine: one engine instance together with the decision whether
/// this value owns it.  At most one owning machine exists per instance; any
/// number of non-owning views may be handed to callbacks, and only an owning
/// machine may tear the instance down.
pub struct VM {
    /// The instance state.
    pub engine: Engine,
    /// Whether this value is responsible for tearing the instance down.
    pub owned: bool,
}

impl VM {
    /// The slot register file.
    pub open spec fn slots(self) -> Seq<SlotContent> {
        self.engine.slots@
    }

    /// How many slots are currently allocated.
    pub open spec fn slot_count(self) -> int {
        self.engine.slots@.len() as int
    }

    /// The bytes of string `i` of the string store.
    pub open spec fn str_at(self, i: int) -> Seq<u8> {
        self.engine.strings@[i]@
    }

    /// How many strings the string store holds.
    pub open spec fn strs_len(self) -> int {
        self.engine.strings@.len() as int
    }

    /// The elements of list `i` of the list store.
    pub open spec fn list_at(self, i: int) -> Seq<SlotContent> {
        self.engine.lists@[i]@
    }

    /// How many lists the list store holds.
    pub open spec fn lists_len(self) -> int {
        self.engine.lists@.len() as int
    }

    /// The payload size of foreign object `i`.
    pub open spec fn foreign_at(self, i: int) -> int {
        self.engine.foreigns@[i] as int
    }

    /// How many foreign objects the foreign store holds.
    pub open spec fn foreigns_len(self) -> int {
        self.engine.foreigns@.len() as int
    }

    /// The handle-table entry of handle `i`.
    pub open spec fn handle_at(self, i: int) -> HandleEntry {
        self.engine.handles@[i]
    }

    /// How many handles the instance has issued.
    pub open spec fn handles_len(self) -> int {
        self.engine.handles@.len() as int
    }

    /// Whether `slot` currently holds a list.
    pub open spec fn slot_is_list(self, slot: int) -> bool {
        self.slots()[slot] is List
    }

    /// The list-store index the list in `slot` refers to.
    pub open spec fn slot_list_id(self, slot: int) -> int {
        match self.slots()[slot] {
            SlotContent::List(l) => l as int,
            _ => -1,
        }
    }

    /// The elements of the list in `slot`.
    pub open spec fn slot_list(self, slot: int) -> Seq<SlotContent> {
        self.list_at(self.slot_list_id(slot))
    }

    /// The value that placing handle `id` in a slot writes there: the captured
    /// slot value for a value handle, an engine-internal callable for a method
    /// handle.
    pub open spec fn handle_content(self, id: int) -> SlotContent {
        match self.handle_at(id).target {
            HandleTarget::Method => SlotContent::Unknown,
            HandleTarget::Value(c) => c,
        }
    }

    /// Whether slot content `c` refers only into the instance's stores.
    pub open spec fn content_wf(self, c: SlotContent) -> bool {
        match c {
            SlotContent::Str(s) => (s as int) < self.strs_len(),
            SlotContent::List(l) => (l as int) < self.lists_len(),
            SlotContent::Foreign(f) => (f as int) < self.foreigns_len(),
            _ => true,
        }
    }

    /// The instance invariant: the slot count fits the engine's signed count,
    /// every slot and every list element refers into the stores, every list
    /// is shorter than the engine's signed maximum, and every handle has been
    /// released exactly once if and only if no reference to it remains.
    pub open spec fn wf(self) -> bool {
        &&& self.slot_count() <= i32::MAX as int
        &&& forall|i: int|
            0 <= i < self.slot_count() ==> self.content_wf(#[trigger] self.slots()[i])
        &&& forall|l: int|
            0 <= l < self.lists_len() ==> #[trigger] self.list_at(l).len() < i32::MAX as int
        &&& forall|l: int, j: int|
            0 <= l < self.lists_len() && 0 <= j < self.list_at(l).len() ==> self.content_wf(
                #[trigger] self.list_at(l)[j],
            )
        &&& forall|h: int|
            0 <= h < self.handles_len() ==> {
                let e = #[trigger] self.handle_at(h);
                &&& e.releases == if e.refs == 0 {
                    1u64
                } else {
                    0u64
                }
                &&& (e.target matches HandleTarget::Value(c) ==> self.content_wf(c))
            }
    }

    /// A new machine: consumes the configuration, constructs an instance, and
    /// owns it.
    pub fn new(cfg: Configuration) -> (vm: VM)
        ensures
            vm.wf(),
            vm.owned,
            vm.engine.alive,
            !vm.engine.aborted,
            vm.slot_count() == 0,
            vm.strs_len() == 0,
            vm.lists_len() == 0,
            vm.foreigns_len() == 0,
            vm.handles_len() == 0,
            vm.engine.user_data == cfg.user_data,
            vm.engine.config == cfg,
    {
        VM { engine: Engine::new(cfg), owned: true }
    }

    /// A non-owning view of an existing instance, as handed to a host
    /// callback while the engine is executing.  The view must not outlive the
    /// callback and must never be used to tear the instance down.
    pub fn from_ptr(engine: Engine) -> (vm: VM)
        ensures
            vm.engine == engine,
            !vm.owned,
    {
        VM { engine, owned: false }
    }

    /// What an owning machine's teardown performs: the instance is freed.  A
    /// non-owning view is simply discarded and has no teardown.
    pub fn shutdown(&mut self)
        requires
            old(self).wf(),
            old(self).owned,
            old(self).engine.alive,
        ensures
            final(self).wf(),
            !final(self).engine.alive,
            final(self).engine == (Engine { alive: false, ..old(self).engine }),
            final(self).owned == old(self).owned,
    {
        self.engine.alive = false;
        proof {
            lemma_wf_same_stores(*old(self), *self);
        }
    }

    /// The number of slots currently allocated.
    pub fn get_slot_count(&mut self) -> (count: i32)
        requires
            old(self).wf(),
            old(self).engine.alive,
        ensures
            *final(self) == *old(self),
            count as int == old(self).slot_count(),
    {
        self.engine.slots.len() as i32
    }

    /// Grows the slot register file to at least `num_slots` slots.  Slots are
    /// never shrunk; freshly grown slots hold an engine-defined value.
    fn ensure_slots(&mut self, num_slots: i32)
        requires
            old(self).wf(),
            old(self).engine.alive,
            0 <= num_slots,
        ensures
            final(self).wf(),
            final(self).slot_count() == if old(self).slot_count() >= num_slots as int {
                old(self).slot_count()
            } else {
                num_slots as int
            },
            forall|j: int|
                0 <= j < old(self).slot_count() ==> #[trigger] final(self).slots()[j] == old(
                    self,
                ).slots()[j],
            forall|j: int|
                old(self).slot_count() <= j < final(self).slot_count()
                    ==> #[trigger] final(self).slots()[j] == SlotContent::Unknown,
            same_stores(*old(self), *final(self)),
            same_control(*old(self), *final(self)),
    {
        let ghost pre = *self;
        let needed: usize = num_slots as usize;
        while self.engine.slots.len() < needed
            invariant
                pre.wf(),
                needed <= i32::MAX as usize,
                pre.slot_count() <= self.slot_count(),
                self.slot_count() <= if pre.slot_count() >= needed as int {
                    pre.slot_count()
                } else {
                    needed as int
                },
                forall|j: int|
                    0 <= j < pre.slot_count() ==> #[trigger] self.slots()[j] == pre.slots()[j],
                forall|j: int|
                    pre.slot_count() <= j < self.slot_count() ==> #[trigger] self.slots()[j]
                        == SlotContent::Unknown,
                same_stores(pre, *self),
                same_control(pre, *self),
            decreases needed - self.engine.slots.len(),
        {
            let ghost before = *self;
            self.engine.slots.push(SlotContent::Unknown);
            proof {
                assert(self.slots() == before.slots().push(SlotContent::Unknown));
                assert forall|j: int| 0 <= j < pre.slot_count() implies #[trigger] self.slots()[j]
                    == pre.slots()[j] by {
                    assert(before.slots()[j] == pre.slots()[j]);
                }
                assert forall|j: int|
                    pre.slot_count() <= j < self.slot_count() implies #[trigger] self.slots()[j]
                    == SlotContent::Unknown by {
                    if j < before.slot_count() {
                        assert(before.slots()[j] == SlotContent::Unknown);
                    }
                }
            }
        }
        proof {
            assert forall|i: int| 0 <= i < self.slot_count() implies self.content_wf(
                #[trigger] self.slots()[i],
            ) by {
                if i < pre.slot_count() {
                    assert(pre.content_wf(pre.slots()[i]));
                }
            }
            lemma_wf_parts(pre, *self);
        }
    }

    /// The runtime type of the value in `slot`.  An out-of-bounds slot is a
    /// host-code bug and is excluded, as the layer fails fast on it.
    pub fn get_slot_type(&mut self, slot: i32) -> (t: SlotType)
        requires
            old(self).wf(),
            old(self).engine.alive,
            0 <= slot && (slot as int) < old(self).slot_count(),
        ensures
            *final(self) == *old(self),
            t == type_of(old(self).slots()[slot as int]),
    {
        let c = self.engine.slots[slot as usize];
        match c {
            SlotContent::Null => SlotType::Null,
            SlotContent::Bool(_) => SlotType::Bool,
            SlotContent::Num(_) => SlotType::Num,
            SlotContent::Str(_) => SlotType::Str,
            SlotContent::List(_) => SlotType::List,
            SlotContent::Foreign(_) => SlotType::Foreign,
            SlotContent::Unknown => SlotType::Unknown,
        }
    }

    /// The boolean in `slot`, or absent if the slot does not hold a boolean.
    pub fn get_slot_bool(&mut self, slot: i32) -> (value: Option<bool>)
        requires
            old(self).wf(),
            old(self).engine.alive,
            0 <= slot && (slot as int) < old(self).slot_count(),
        ensures
            *final(self) == *old(self),
            value == (match old(self).slots()[slot as int] {
                SlotContent::Bool(b) => Some(b),
                _ => None::<bool>,
            }),
    {
        match self.engine.slots[slot as usize] {
            SlotContent::Bool(b) => Some(b),
            _ => None,
        }
    }

    /// The bit pattern of the number in `slot`, or absent if the slot does
    /// not hold a number.
    pub fn get_slot_double(&mut self, slot: i32) -> (value: Option<u64>)
        requires
            old(self).wf(),
            old(self).engine.alive,
            0 <= slot && (slot as int) < old(self).slot_count(),
        ensures
            *final(self) == *old(self),
            value == (match old(self).slots()[slot as int] {
                SlotContent::Num(bits) => Some(bits),
                _ => None::<u64>,
            }),
    {
        match self.engine.slots[slot as usize] {
            SlotContent::Num(bits) => Some(bits),
            _ => None,
        }
    }

    /// Writes a boolean into `slot`, growing the register file first.
    pub fn set_slot_bool(&mut self, slot: i32, value: bool)
        requires
            old(self).wf(),
            old(self).engine.alive,
            0 <= slot,
            slot < i32::MAX,
        ensures
            final(self).wf(),
            slot_write(*old(self), *final(self), slot as int, SlotContent::Bool(value)),
            same_stores(*old(self), *final(self)),
            same_control(*old(self), *final(self)),
    {
        self.ensure_slots(slot + 1);
        self.engine.slots[slot as usize] = SlotContent::Bool(value);
        proof {
            lemma_wf_slot_write(*old(self), *self, slot as int, SlotContent::Bool(value));
        }
    }

    /// Writes a number into `slot` as the bit pattern of the engine's double,
    /// growing the register file first.
    pub fn set_slot_double(&mut self, slot: i32, bits: u64)
        requires
            old(self).wf(),
            old(self).engine.alive,
            0 <= slot,
            slot < i32::MAX,
        ensures
            final(self).wf(),
            slot_write(*old(self), *final(self), slot as int, SlotContent::Num(bits)),
            same_stores(*old(self), *final(self)),
            same_control(*old(self), *final(self)),
    {
        self.ensure_slots(slot + 1);
        self.engine.slots[slot as usize] = SlotContent::Num(bits);
        proof {
            lemma_wf_slot_write(*old(self), *self, slot as int, SlotContent::Num(bits));
        }
    }

    /// Writes null into `slot`, growing the register file first.
    pub fn set_slot_null(&mut self, slot: i32)
        requires
            old(self).wf(),
            old(self).engine.alive,
            0 <= slot,
            slot < i32::MAX,
        ensures
            final(self).wf(),
            slot_write(*old(self), *final(self), slot as int, SlotContent::Null),
            same_stores(*old(self), *final(self)),
            same_control(*old(self), *final(self)),
    {
        self.ensure_slots(slot + 1);
        self.engine.slots[slot as usize] = SlotContent::Null;
        proof {
            lemma_wf_slot_write(*old(self), *self, slot as int, SlotContent::Null);
        }
    }

    /// Writes the given bytes into `slot` as a new engine string, growing the
    /// register file first.
    pub fn set_slot_bytes(&mut self, slot: i32, bytes: &[u8])
        requires
            old(self).wf(),
            old(self).engine.alive,
            0 <= slot,
            slot < i32::MAX,
        ensures
            final(self).wf(),
            slot_write(
                *old(self),
                *final(self),
                slot as int,
                SlotContent::Str(old(self).strs_len() as usize),
            ),
            final(self).strs_len() == old(self).strs_len() + 1,
            final(self).str_at(old(self).strs_len()) == bytes@,
            forall|i: int|
                0 <= i < old(self).strs_len() ==> #[trigger] final(self).str_at(i) == old(
                    self,
                ).str_at(i),
            final(self).engine.lists == old(self).engine.lists,
            final(self).engine.foreigns == old(self).engine.foreigns,
            final(self).engine.handles == old(self).engine.handles,
            same_control(*old(self), *final(self)),
    {
        self.ensure_slots(slot + 1);
        let ghost mid = *self;
        let id = self.engine.strings.len();
        self.engine.strings.push(slice_to_vec(bytes));
        self.engine.slots[slot as usize] = SlotContent::Str(id);
        proof {
            let grown = VM {
                engine: Engine { slots: mid.engine.slots, strings: self.engine.strings, ..mid.engine },
                ..mid
            };
            lemma_wf_store_growth(mid, grown);
            lemma_wf_slot_write(grown, *self, slot as int, SlotContent::Str(id));
        }
    }

    /// Writes the given text into `slot` as a new engine string, growing the
    /// register file first.  Text with an interior NUL byte cannot be handed
    /// to the engine and is excluded, as the layer fails fast on it.
    pub fn set_slot_string(&mut self, slot: i32, s: &str)
        requires
            old(self).wf(),
            old(self).engine.alive,
            0 <= slot,
            slot < i32::MAX,
            forall|i: int| 0 <= i < s.spec_bytes().len() ==> s.spec_bytes()[i] != 0,
        ensures
            final(self).wf(),
            slot_write(
                *old(self),
                *final(self),
                slot as int,
                SlotContent::Str(old(self).strs_len() as usize),
            ),
            final(self).strs_len() == old(self).strs_len() + 1,
            final(self).str_at(old(self).strs_len()) == s.spec_bytes(),
            forall|i: int|
                0 <= i < old(self).strs_len() ==> #[trigger] final(self).str_at(i) == old(
                    self,
                ).str_at(i),
            final(self).engine.lists == old(self).engine.lists,
            final(self).engine.foreigns == old(self).engine.foreigns,
            final(self).engine.handles == old(self).engine.handles,
            same_control(*old(self), *final(self)),
    {
        self.set_slot_bytes(slot, s.as_bytes());
    }

    /// The bytes of the string in `slot`, or absent if the slot does not hold
    /// a string.  The engine reports the exact byte length, so the copy is
    /// not cut short by a NUL byte.
    pub fn get_slot_bytes(&mut self, slot: i32) -> (value: Option<Vec<u8>>)
        requires
            old(self).wf(),
            old(self).engine.alive,
            0 <= slot && (slot as int) < old(self).slot_count(),
        ensures
            *final(self) == *old(self),
            match old(self).slots()[slot as int] {
                SlotContent::Str(sid) => value matches Some(v) && v@ == old(self).str_at(sid as int),
                _ => value is None,
            },
    {
        proof {
            assert(old(self).content_wf(old(self).slots()[slot as int]));
        }
        match self.engine.slots[slot as usize] {
            SlotContent::Str(sid) => Some(slice_to_vec(self.engine.strings[sid].as_slice())),
            _ => None,
        }
    }

    /// The text of the string in `slot`, or absent if the slot does not hold
    /// a string.  The engine hands the text out as a C string, so it ends at
    /// the first NUL byte; string bytes whose NUL-terminated view is not
    /// valid UTF-8 are a host-code bug and are excluded, as the layer fails
    /// fast on them.
    pub fn get_slot_string(&mut self, slot: i32) -> (value: Option<String>)
        requires
            old(self).wf(),
            old(self).engine.alive,
            0 <= slot && (slot as int) < old(self).slot_count(),
            old(self).slots()[slot as int] matches SlotContent::Str(sid)
                ==> vstd::utf8::valid_utf8(crate::text::nul_prefix(old(self).str_at(sid as int))),
        ensures
            *final(self) == *old(self),
            match old(self).slots()[slot as int] {
                SlotContent::Str(sid) => value matches Some(s) && vstd::utf8::encode_utf8(s@)
                    == crate::text::nul_prefix(old(self).str_at(sid as int)),
                _ => value is None,
            },
    {
        proof {
            assert(old(self).content_wf(old(self).slots()[slot as int]));
        }
        match self.engine.slots[slot as usize] {
            SlotContent::Str(sid) => crate::text::c_string_text(
                self.engine.strings[sid].as_slice(),
            ),
            _ => None,
        }
    }

    /// The opaque payload pointer of the foreign object in `slot`, or absent
    /// if the slot does not hold a foreign object.
    pub fn get_slot_foreign(&mut self, slot: i32) -> (value: Option<Pointer>)
        requires
            old(self).wf(),
            old(self).engine.alive,
            0 <= slot && (slot as int) < old(self).slot_count(),
        ensures
            *final(self) == *old(self),
            value == (match old(self).slots()[slot as int] {
                SlotContent::Foreign(f) => Some(f as Pointer),
                _ => None::<Pointer>,
            }),
    {
        match self.engine.slots[slot as usize] {
            SlotContent::Foreign(f) => Some(f),
            _ => None,
        }
    }

    /// Writes a fresh foreign object of `size` payload bytes into `slot`,
    /// growing the register file first; the object's class is taken from
    /// `class_slot`.  Returns the opaque payload pointer.
    pub fn set_slot_new_foreign(&mut self, slot: i32, class_slot: i32, size: usize) -> (p: Pointer)
        requires
            old(self).wf(),
            old(self).engine.alive,
            0 <= slot,
            slot < i32::MAX,
            0 <= class_slot,
            (class_slot as int) < (if old(self).slot_count() >= slot as int + 1 {
                old(self).slot_count()
            } else {
                slot as int + 1
            }),
        ensures
            final(self).wf(),
            slot_write(
                *old(self),
                *final(self),
                slot as int,
                SlotContent::Foreign(old(self).foreigns_len() as usize),
            ),
            final(self).foreigns_len() == old(self).foreigns_len() + 1,
            final(self).foreign_at(old(self).foreigns_len()) == size as int,
            forall|i: int|
                0 <= i < old(self).foreigns_len() ==> #[trigger] final(self).foreign_at(i) == old(
                    self,
                ).foreign_at(i),
            p as int == old(self).foreigns_len(),
            final(self).engine.strings == old(self).engine.strings,
            final(self).engine.lists == old(self).engine.lists,
            final(self).engine.handles == old(self).engine.handles,
            same_control(*old(self), *final(self)),
    {
        self.ensure_slots(slot + 1);
        let ghost mid = *self;
        let id = self.engine.foreigns.len();
        self.engine.foreigns.push(size);
        self.engine.slots[slot as usize] = SlotContent::Foreign(id);
        proof {
            let grown = VM {
                engine: Engine {
                    slots: mid.engine.slots,
                    foreigns: self.engine.foreigns,
                    ..mid.engine
                },
                ..mid
            };
            lemma_wf_store_growth(mid, grown);
            lemma_wf_slot_write(grown, *self, slot as int, SlotContent::Foreign(id));
        }
        id
    }

    /// Writes a fresh empty list into `slot`, growing the register file
    /// first.
    pub fn set_slot_new_list(&mut self, slot: i32)
        requires
            old(self).wf(),
            old(self).engine.alive,
            0 <= slot,
            slot < i32::MAX,
        ensures
            final(self).wf(),
            slot_write(
                *old(self),
                *final(self),
                slot as int,
                SlotContent::List(old(self).lists_len() as usize),
            ),
            final(self).lists_len() == old(self).lists_len() + 1,
            final(self).list_at(old(self).lists_len()) == Seq::<SlotContent>::empty(),
            forall|l: int|
                0 <= l < old(self).lists_len() ==> #[trigger] final(self).list_at(l) == old(
                    self,
                ).list_at(l),
            final(self).engine.strings == old(self).engine.strings,
            final(self).engine.foreigns == old(self).engine.foreigns,
            final(self).engine.handles == old(self).engine.handles,
            same_control(*old(self), *final(self)),
    {
        self.ensure_slots(slot + 1);
        let ghost mid = *self;
        let id = self.engine.lists.len();
        self.engine.lists.push(Vec::new());
        self.engine.slots[slot as usize] = SlotContent::List(id);
        proof {
            let grown = VM {
                engine: Engine { slots: mid.engine.slots, lists: self.engine.lists, ..mid.engine },
                ..mid
            };
            lemma_wf_store_growth(mid, grown);
            lemma_wf_slot_write(grown, *self, slot as int, SlotContent::List(id));
        }
    }

    /// How many elements the list in `slot` has; a slot that does not hold a
    /// list counts as empty rather than failing.
    pub fn get_list_count(&mut self, slot: i32) -> (count: i32)
        requires
            old(self).wf(),
            old(self).engine.alive,
            0 <= slot && (slot as int) < old(self).slot_count(),
        ensures
            *final(self) == *old(self),
            count as int == (match old(self).slots()[slot as int] {
                SlotContent::List(l) => old(self).list_at(l as int).len() as int,
                _ => 0,
            }),
    {
        proof {
            assert(old(self).content_wf(old(self).slots()[slot as int]));
        }
        match self.engine.slots[slot as usize] {
            SlotContent::List(l) => {
                proof {
                    assert(old(self).list_at(l as int).len() < i32::MAX as int);
                }
                self.engine.lists[l].len() as i32
            },
            _ => 0,
        }
    }

    /// Converts a possibly negative (relative-to-the-end) list index to an
    /// absolute one and checks it against the list's length.  The engine does
    /// not perform this bounds check in optimized builds, so the layer adds
    /// it; an index whose absolute position lies outside `0 ..= length` is a
    /// host-code bug and is excluded, as the layer fails fast on it.
    fn check_index(&mut self, list_slot: i32, index: i32) -> (abs: i32)
        requires
            old(self).wf(),
            old(self).engine.alive,
            0 <= list_slot && (list_slot as int) < old(self).slot_count(),
            old(self).slot_is_list(list_slot as int),
            0 <= abs_index(index as int, old(self).slot_list(list_slot as int).len() as int),
            abs_index(index as int, old(self).slot_list(list_slot as int).len() as int) <= old(
                self,
            ).slot_list(list_slot as int).len() as int,
        ensures
            *final(self) == *old(self),
            abs as int == abs_index(
                index as int,
                old(self).slot_list(list_slot as int).len() as int,
            ),
    {
        let _t = self.get_slot_type(list_slot);
        let list_count = self.get_list_count(list_slot);
        if index < 0 {
            list_count + 1 + index
        } else {
            index
        }
    }

    /// Copies element `index` of the list in `list_slot` into `element_slot`,
    /// growing the register file first.  A negative index counts from the end
    /// of the list, so an index of -1 names the position the list's length
    /// names; reading at that position, one past the last element, yields an
    /// engine-defined value.
    pub fn get_list_element(&mut self, list_slot: i32, index: i32, element_slot: i32)
        requires
            old(self).wf(),
            old(self).engine.alive,
            0 <= element_slot,
            element_slot < i32::MAX,
            0 <= list_slot && (list_slot as int) < old(self).slot_count(),
            old(self).slot_is_list(list_slot as int),
            0 <= abs_index(index as int, old(self).slot_list(list_slot as int).len() as int),
            abs_index(index as int, old(self).slot_list(list_slot as int).len() as int) <= old(
                self,
            ).slot_list(list_slot as int).len() as int,
        ensures
            final(self).wf(),
            slot_write(
                *old(self),
                *final(self),
                element_slot as int,
                list_element_read(*old(self), list_slot as int, index as int),
            ),
            same_stores(*old(self), *final(self)),
            same_control(*old(self), *final(self)),
    {
        self.ensure_slots(element_slot + 1);
        let idx = self.check_index(list_slot, index);
        proof {
            assert(old(self).content_wf(old(self).slots()[list_slot as int]));
        }
        let elem = match self.engine.slots[list_slot as usize] {
            SlotContent::List(l) => {
                let list = &self.engine.lists[l];
                if (idx as usize) < list.len() {
                    list[idx as usize]
                } else {
                    SlotContent::Unknown
                }
            },
            _ => SlotContent::Unknown,
        };
        let ghost mid = *self;
        self.engine.slots[element_slot as usize] = elem;
        proof {
            let l = old(self).slot_list_id(list_slot as int);
            if (idx as int) < old(self).list_at(l).len() {
                assert(old(self).content_wf(old(self).list_at(l)[idx as int]));
            }
            lemma_wf_slot_write(mid, *self, element_slot as int, elem);
        }
    }

    /// Inserts the value in `element_slot` into the list in `list_slot` at
    /// `index`.  A negative index counts from the end, so an index of -1
    /// appends; the source slot must already exist, as the layer fails fast
    /// on a source slot past the register file.
    pub fn insert_in_list(&mut self, list_slot: i32, index: i32, element_slot: i32)
        requires
            old(self).wf(),
            old(self).engine.alive,
            0 <= element_slot && (element_slot as int) < old(self).slot_count(),
            0 <= list_slot && (list_slot as int) < old(self).slot_count(),
            old(self).slot_is_list(list_slot as int),
            0 <= abs_index(index as int, old(self).slot_list(list_slot as int).len() as int),
            abs_index(index as int, old(self).slot_list(list_slot as int).len() as int) <= old(
                self,
            ).slot_list(list_slot as int).len() as int,
            old(self).slot_list(list_slot as int).len() + 1 < i32::MAX as int,
        ensures
            final(self).wf(),
            final(self).engine.slots == old(self).engine.slots,
            final(self).lists_len() == old(self).lists_len(),
            final(self).list_at(old(self).slot_list_id(list_slot as int)) == old(self).slot_list(
                list_slot as int,
            ).insert(
                abs_index(index as int, old(self).slot_list(list_slot as int).len() as int),
                old(self).slots()[element_slot as int],
            ),
            forall|l: int|
                0 <= l < old(self).lists_len() && l != old(self).slot_list_id(list_slot as int)
                    ==> #[trigger] final(self).list_at(l) == old(self).list_at(l),
            final(self).engine.strings == old(self).engine.strings,
            final(self).engine.foreigns == old(self).engine.foreigns,
            final(self).engine.handles == old(self).engine.handles,
            same_control(*old(self), *final(self)),
    {
        let idx = self.check_index(list_slot, index);
        let elem = self.engine.slots[element_slot as usize];
        proof {
            assert(old(self).content_wf(old(self).slots()[list_slot as int]));
            assert(old(self).content_wf(elem));
        }
        match self.engine.slots[list_slot as usize] {
            SlotContent::List(l) => {
                self.engine.lists[l].insert(idx as usize, elem);
                proof {
                    lemma_wf_list_insert(*old(self), *self, l as int, idx as int, elem);
                }
            },
            _ => (),
        }
    }

    /// Looks up the module-level variable `name` of module `module` and
    /// writes it into `slot`, growing the register file first.  If the module
    /// or the name does not exist the engine leaves the slot engine-defined,
    /// and so does the model for every lookup.  Names with interior NUL bytes
    /// cannot be handed to the engine and are excluded, as the layer fails
    /// fast on them.
    pub fn get_variable(&mut self, module: &str, name: &str, slot: i32)
        requires
            old(self).wf(),
            old(self).engine.alive,
            0 <= slot,
            slot < i32::MAX,
            forall|i: int| 0 <= i < module.spec_bytes().len() ==> module.spec_bytes()[i] != 0,
            forall|i: int| 0 <= i < name.spec_bytes().len() ==> name.spec_bytes()[i] != 0,
        ensures
            final(self).wf(),
            slot_write(*old(self), *final(self), slot as int, SlotContent::Unknown),
            same_stores(*old(self), *final(self)),
            same_control(*old(self), *final(self)),
    {
        self.ensure_slots(slot + 1);
        self.engine.slots[slot as usize] = SlotContent::Unknown;
        proof {
            lemma_wf_slot_write(*old(self), *self, slot as int, SlotContent::Unknown);
        }
    }

    /// Signals a runtime error with the value in `slot` as the error object;
    /// the engine unwinds the current fiber at its next checkpoint and the
    /// run in progress reports the runtime-error outcome.
    pub fn abort_fiber(&mut self, slot: i32)
        requires
            old(self).wf(),
            old(self).engine.alive,
            0 <= slot && (slot as int) < old(self).slot_count(),
        ensures
            final(self).wf(),
            final(self).engine == (Engine { aborted: true, ..old(self).engine }),
            final(self).owned == old(self).owned,
    {
        self.engine.aborted = true;
        proof {
            lemma_wf_same_stores(*old(self), *self);
        }
    }

    /// Triggers one garbage-collection pass.  Collection may move
    /// engine-internal storage but frees nothing the slots, the handles or
    /// the host can still reach, so the observable state is unchanged.
    pub fn collect_garbage(&mut self)
        requires
            old(self).wf(),
            old(self).engine.alive,
        ensures
            *final(self) == *old(self),
    {
    }

    /// The opaque user-data word stashed on the instance.
    pub fn get_user_data(&mut self) -> (data: Pointer)
        requires
            old(self).wf(),
            old(self).engine.alive,
        ensures
            *final(self) == *old(self),
            data == old(self).engine.user_data,
    {
        self.engine.user_data
    }

    /// Replaces the opaque user-data word stashed on the instance.
    pub fn set_user_data(&mut self, data: Pointer)
        requires
            old(self).wf(),
            old(self).engine.alive,
        ensures
            final(self).wf(),
            final(self).engine == (Engine { user_data: data, ..old(self).engine }),
            final(self).owned == old(self).owned,
    {
        self.engine.user_data = data;
        proof {
            lemma_wf_same_stores(*old(self), *self);
        }
    }

    /// Resolves a method signature (name plus arity encoding) to an invocable
    /// target and hands back a fresh handle to it, with one reference
    /// outstanding.  The handle stays valid for the life of the instance and
    /// is independent of which receiver is later placed in slot 0.
    /// Signatures with interior NUL bytes cannot be handed to the engine and
    /// are excluded, as the layer fails fast on them.
    pub fn make_call_handle(&mut self, signature: &str) -> (h: Handle)
        requires
            old(self).wf(),
            old(self).engine.alive,
            forall|i: int|
                0 <= i < signature.spec_bytes().len() ==> signature.spec_bytes()[i] != 0,
        ensures
            final(self).wf(),
            final(self).engine.handles@ == old(self).engine.handles@.push(
                HandleEntry { refs: 1, releases: 0, target: HandleTarget::Method },
            ),
            h.id() == old(self).handles_len(),
            final(self).engine.slots == old(self).engine.slots,
            final(self).engine.strings == old(self).engine.strings,
            final(self).engine.lists == old(self).engine.lists,
            final(self).engine.foreigns == old(self).engine.foreigns,
            same_control(*old(self), *final(self)),
    {
        let idx = self.engine.handles.len();
        let entry = HandleEntry { refs: 1, releases: 0, target: HandleTarget::Method };
        self.engine.handles.push(entry);
        proof {
            lemma_wf_handle_push(*old(self), *self, entry);
        }
        Handle { idx }
    }

    /// Captures whatever value currently occupies `slot` and hands back a
    /// fresh handle to it, with one reference outstanding.  An out-of-bounds
    /// slot is a host-code bug and is excluded, as the layer fails fast on
    /// it.
    pub fn get_slot_handle(&mut self, slot: i32) -> (h: Handle)
        requires
            old(self).wf(),
            old(self).engine.alive,
            0 <= slot && (slot as int) < old(self).slot_count(),
        ensures
            final(self).wf(),
            final(self).engine.handles@ == old(self).engine.handles@.push(
                HandleEntry {
                    refs: 1,
                    releases: 0,
                    target: HandleTarget::Value(old(self).slots()[slot as int]),
                },
            ),
            h.id() == old(self).handles_len(),
            final(self).engine.slots == old(self).engine.slots,
            final(self).engine.strings == old(self).engine.strings,
            final(self).engine.lists == old(self).engine.lists,
            final(self).engine.foreigns == old(self).engine.foreigns,
            same_control(*old(self), *final(self)),
    {
        let idx = self.engine.handles.len();
        let captured = self.engine.slots[slot as usize];
        let entry = HandleEntry { refs: 1, releases: 0, target: HandleTarget::Value(captured) };
        self.engine.handles.push(entry);
        proof {
            assert(old(self).content_wf(old(self).slots()[slot as int]));
            lemma_wf_handle_push(*old(self), *self, entry);
        }
        Handle { idx }
    }

    /// Writes the value a live handle refers to into `slot`, growing the
    /// register file first.
    pub fn set_slot_handle(&mut self, slot: i32, handle: &Handle)
        requires
            old(self).wf(),
            old(self).engine.alive,
            0 <= slot,
            slot < i32::MAX,
            0 <= handle.id() < old(self).handles_len(),
            old(self).handle_at(handle.id()).refs >= 1,
        ensures
            final(self).wf(),
            slot_write(
                *old(self),
                *final(self),
                slot as int,
                old(self).handle_content(handle.id()),
            ),
            same_stores(*old(self), *final(self)),
            same_control(*old(self), *final(self)),
    {
        let content = match self.engine.handles[handle.idx].target {
            HandleTarget::Method => SlotContent::Unknown,
            HandleTarget::Value(c) => c,
        };
        self.ensure_slots(slot + 1);
        self.engine.slots[slot as usize] = content;
        proof {
            let e = old(self).handle_at(handle.id());
            assert(e.target matches HandleTarget::Value(c) ==> old(self).content_wf(c));
            lemma_wf_slot_write(*old(self), *self, slot as int, content);
        }
    }

    /// One more host-side reference to a live handle: what a shared-ownership
    /// clone of the handle performs.  No engine release happens here.
    pub fn clone_handle(&mut self, handle: &Handle) -> (h: Handle)
        requires
            old(self).wf(),
            old(self).engine.alive,
            0 <= handle.id() < old(self).handles_len(),
            old(self).handle_at(handle.id()).refs >= 1,
            old(self).handle_at(handle.id()).refs < u64::MAX,
        ensures
            final(self).wf(),
            h.id() == handle.id(),
            final(self).handles_len() == old(self).handles_len(),
            final(self).handle_at(handle.id()) == (HandleEntry {
                refs: (old(self).handle_at(handle.id()).refs + 1) as u64,
                ..old(self).handle_at(handle.id())
            }),
            forall|j: int|
                0 <= j < old(self).handles_len() && j != handle.id() ==> #[trigger] final(self).handle_at(j) == old(self).handle_at(j),
            final(self).engine.slots == old(self).engine.slots,
            final(self).engine.strings == old(self).engine.strings,
            final(self).engine.lists == old(self).engine.lists,
            final(self).engine.foreigns == old(self).engine.foreigns,
            same_control(*old(self), *final(self)),
    {
        let e = self.engine.handles[handle.idx];
        self.engine.handles[handle.idx] = HandleEntry { refs: e.refs + 1, ..e };
        proof {
            lemma_wf_handle_update(*old(self), *self, handle.id());
        }
        Handle { idx: handle.idx }
    }

    /// One host-side reference to a live handle goes away: what dropping one
    /// owner of the handle performs.  Exactly when the last reference goes
    /// away, the engine is asked — once — to release the underlying value,
    /// and the result reports whether this call was that release.
    pub fn release_handle(&mut self, handle: Handle) -> (released: bool)
        requires
            old(self).wf(),
            old(self).engine.alive,
            0 <= handle.id() < old(self).handles_len(),
            old(self).handle_at(handle.id()).refs >= 1,
        ensures
            final(self).wf(),
            released == (old(self).handle_at(handle.id()).refs == 1),
            final(self).handles_len() == old(self).handles_len(),
            final(self).handle_at(handle.id()) == (HandleEntry {
                refs: (old(self).handle_at(handle.id()).refs - 1) as u64,
                releases: if old(self).handle_at(handle.id()).refs == 1 {
                    1u64
                } else {
                    0u64
                },
                target: old(self).handle_at(handle.id()).target,
            }),
            forall|j: int|
                0 <= j < old(self).handles_len() && j != handle.id() ==> #[trigger] final(self).handle_at(j) == old(self).handle_at(j),
            final(self).engine.slots == old(self).engine.slots,
            final(self).engine.strings == old(self).engine.strings,
            final(self).engine.lists == old(self).engine.lists,
            final(self).engine.foreigns == old(self).engine.foreigns,
            same_control(*old(self), *final(self)),
    {
        let e = self.engine.handles[handle.idx];
        let new_refs = e.refs - 1;
        let released = new_refs == 0;
        proof {
            assert(old(self).handle_at(handle.id()).releases == 0);
        }
        self.engine.handles[handle.idx] = HandleEntry {
            refs: new_refs,
            releases: if released {
                1
            } else {
                0
            },
            target: e.target,
        };
        proof {
            lemma_wf_handle_update(*old(self), *self, handle.id());
        }
        released
    }

    /// How many references to a handle are outstanding.
    pub fn handle_ref_count(&mut self, handle: &Handle) -> (refs: u64)
        requires
            old(self).wf(),
            0 <= handle.id() < old(self).handles_len(),
        ensures
            *final(self) == *old(self),
            refs == old(self).handle_at(handle.id()).refs,
    {
        self.engine.handles[handle.idx].refs
    }

    /// How many times the engine has been asked to release handle table entry
    /// `id` — by the layer's guarantee, once after all references are gone
    /// and never before.
    pub fn handle_release_calls(&mut self, id: usize) -> (releases: u64)
        requires
            old(self).wf(),
            0 <= id && (id as int) < old(self).handles_len(),
        ensures
            *final(self) == *old(self),
            releases == old(self).handle_at(id as int).releases,
    {
        self.engine.handles[id].releases
    }
}

/// The absolute position a list index names in a list of length `n`: a
/// non-negative index names itself, and a negative index counts back from one
/// past the last element, so -1 names position `n` — the append position, one
/// past the last element.
pub open spec fn abs_index(index: int, n: int) -> int {
    if index < 0 {
        n + 1 + index
    } else {
        index
    }
}

/// What a list-element read places in the destination slot: the element at
/// the index's absolute position, or an engine-defined value when that
/// position is the append position, one past the last element.
pub open spec fn list_element_read(vm: VM, list_slot: int, index: int) -> SlotContent {
    let list = vm.slot_list(list_slot);
    let abs = abs_index(index, list.len() as int);
    if abs < list.len() {
        list[abs]
    } else {
        SlotContent::Unknown
    }
}

/// Law: a slot write covers its slot — writing to slot `slot` succeeds
/// whatever the slot count was before, and afterwards the slot count exceeds
/// `slot`, the slot holds exactly the written content, and the register file
/// has grown and never shrunk.  Every write operation of the layer ensures
/// `slot_write`, so this holds of them all.
pub proof fn lemma_write_covers_slot(pre: VM, post: VM, slot: int, c: SlotContent)
    requires
        0 <= slot,
        slot_write(pre, post, slot, c),
    ensures
        post.slot_count() > slot,
        post.slots()[slot] == c,
        post.slot_count() >= pre.slot_count(),
{
}

/// Law: a boolean write followed by a boolean read returns exactly the
/// written value.  `slot_write` is what `set_slot_bool` ensures, and the
/// conclusion is the value `get_slot_bool` ensures for the new state.
pub proof fn lemma_bool_round_trip(pre: VM, post: VM, slot: int, b: bool)
    requires
        0 <= slot,
        slot_write(pre, post, slot, SlotContent::Bool(b)),
    ensures
        (match post.slots()[slot] {
            SlotContent::Bool(x) => Some(x),
            _ => None::<bool>,
        }) == Some(b),
{
}

/// Law: a number write followed by a number read returns exactly the written
/// bit pattern.  `slot_write` is what `set_slot_double` ensures, and the
/// conclusion is the value `get_slot_double` ensures for the new state.
pub proof fn lemma_double_round_trip(pre: VM, post: VM, slot: int, bits: u64)
    requires
        0 <= slot,
        slot_write(pre, post, slot, SlotContent::Num(bits)),
    ensures
        (match post.slots()[slot] {
            SlotContent::Num(x) => Some(x),
            _ => None::<u64>,
        }) == Some(bits),
{
}

/// Law: a bytes write followed by a bytes read returns exactly the written
/// bytes.  The premises are what `set_slot_bytes` ensures, and the conclusion
/// is what `get_slot_bytes` ensures its result's view to be for the new
/// state.
pub proof fn lemma_bytes_round_trip(pre: VM, post: VM, slot: int, bytes: Seq<u8>)
    requires
        0 <= slot,
        0 <= pre.strs_len() < usize::MAX as int,
        slot_write(pre, post, slot, SlotContent::Str(pre.strs_len() as usize)),
        post.str_at(pre.strs_len()) == bytes,
    ensures
        post.slots()[slot] matches SlotContent::Str(sid) && post.str_at(sid as int) == bytes,
{
}

/// Law: a text write followed by a text read returns exactly the written
/// text.  A text write stores the text's encoding, which by its precondition
/// has no NUL byte, so the C-string view the read takes is the whole
/// encoding; encodings determine their text, so the text read back equals the
/// text written.
pub proof fn lemma_string_round_trip(written: Seq<char>, read: Seq<char>)
    requires
        forall|i: int|
            0 <= i < vstd::utf8::encode_utf8(written).len() ==> vstd::utf8::encode_utf8(written)[i]
                != 0,
        vstd::utf8::encode_utf8(read) == crate::text::nul_prefix(
            vstd::utf8::encode_utf8(written),
        ),
    ensures
        read == written,
{
    crate::text::lemma_nul_prefix_whole(vstd::utf8::encode_utf8(written));
    broadcast use vstd::utf8::encode_utf8_decode_utf8;

    assert(vstd::utf8::decode_utf8(vstd::utf8::encode_utf8(read)) == read);
    assert(vstd::utf8::decode_utf8(vstd::utf8::encode_utf8(written)) == written);
}

/// Law: a type-mismatched read returns an absent value, never an arbitrary
/// one — each read's conclusion below is the value its contract ensures
/// whenever the slot's type tag differs from the one the read expects.
pub proof fn lemma_mismatched_read_absent(vm: VM, slot: int)
    requires
        0 <= slot < vm.slot_count(),
    ensures
        type_of(vm.slots()[slot]) != SlotType::Bool ==> (match vm.slots()[slot] {
            SlotContent::Bool(b) => Some(b),
            _ => None::<bool>,
        }) is None,
        type_of(vm.slots()[slot]) != SlotType::Num ==> (match vm.slots()[slot] {
            SlotContent::Num(bits) => Some(bits),
            _ => None::<u64>,
        }) is None,
        type_of(vm.slots()[slot]) != SlotType::Str ==> (vm.slots()[slot] matches SlotContent::Str(
            sid,
        ) ==> false),
        type_of(vm.slots()[slot]) != SlotType::Foreign ==> (match vm.slots()[slot] {
            SlotContent::Foreign(f) => Some(f as Pointer),
            _ => None::<Pointer>,
        }) is None,
{
}

/// Law: a relative index of -1 behaves identically to an absolute index of
/// the list's length — both name the append position — and any absolute
/// index past the length fails the layer's bounds check.  The list
/// operations' contracts depend on the index only through `abs_index`, so
/// equal absolute positions give identical behaviour.
pub proof fn lemma_relative_index_is_append(n: int)
    requires
        0 <= n,
    ensures
        abs_index(-1, n) == n,
        abs_index(n, n) == n,
        forall|i: int| i > n ==> abs_index(i, n) > n,
{
}

/// Law: however many times a handle was cloned and in whatever order the
/// references were dropped, once no reference remains the engine's release
/// operation has been performed exactly once — and never before that.  The
/// instance invariant carries this through every operation of the layer.
pub proof fn lemma_release_exactly_once(vm: VM, id: int)
    requires
        vm.wf(),
        0 <= id < vm.handles_len(),
    ensures
        vm.handle_at(id).releases <= 1,
        vm.handle_at(id).refs == 0 <==> vm.handle_at(id).releases == 1,
{
    assert(vm.handle_at(id).releases == if vm.handle_at(id).refs == 0 {
        1u64
    } else {
        0u64
    });
}

/// How a write of content `c` into slot `slot` changes the register file: the
/// file grows to cover the slot and keeps its earlier length otherwise, the
/// slot holds `c`, every other slot keeps its value, and slots the growth
/// added hold an engine-defined value.
pub open spec fn slot_write(pre: VM, post: VM, slot: int, c: SlotContent) -> bool {
    &&& post.slot_count() == if pre.slot_count() >= slot + 1 {
        pre.slot_count()
    } else {
        slot + 1
    }
    &&& post.slots()[slot] == c
    &&& forall|j: int|
        0 <= j < pre.slot_count() && j != slot ==> #[trigger] post.slots()[j] == pre.slots()[j]
    &&& forall|j: int|
        pre.slot_count() <= j < post.slot_count() && j != slot ==> #[trigger] post.slots()[j]
            == SlotContent::Unknown
}

/// Once the slots of `post` are each known to be well-formed, the rest of the
/// instance invariant carries over from `pre` whenever the stores are shared.
pub proof fn lemma_wf_parts(pre: VM, post: VM)
    requires
        pre.wf(),
        same_stores(pre, post),
        post.slot_count() <= i32::MAX as int,
        forall|i: int|
            0 <= i < post.slot_count() ==> post.content_wf(#[trigger] post.slots()[i]),
    ensures
        post.wf(),
{
    assert forall|l: int| 0 <= l < post.lists_len() implies #[trigger] post.list_at(l).len()
        < i32::MAX as int by {
        assert(pre.list_at(l).len() < i32::MAX as int);
    }
    assert forall|l: int, j: int|
        0 <= l < post.lists_len() && 0 <= j < post.list_at(l).len() implies post.content_wf(
        #[trigger] post.list_at(l)[j],
    ) by {
        assert(pre.content_wf(pre.list_at(l)[j]));
    }
    assert forall|h: int| 0 <= h < post.handles_len() implies {
        let e = #[trigger] post.handle_at(h);
        &&& e.releases == if e.refs == 0 {
            1u64
        } else {
            0u64
        }
        &&& (e.target matches HandleTarget::Value(c) ==> post.content_wf(c))
    } by {
        let e = pre.handle_at(h);
        assert(e.releases == if e.refs == 0 {
            1u64
        } else {
            0u64
        });
        assert(e.target matches HandleTarget::Value(c) ==> pre.content_wf(c));
    }
}

/// The instance invariant survives issuing a fresh handle: the new entry has
/// one reference, no release performed, and a well-formed target.
pub proof fn lemma_wf_handle_push(pre: VM, post: VM, e: HandleEntry)
    requires
        pre.wf(),
        post.engine.slots == pre.engine.slots,
        post.engine.strings == pre.engine.strings,
        post.engine.lists == pre.engine.lists,
        post.engine.foreigns == pre.engine.foreigns,
        post.engine.handles@ == pre.engine.handles@.push(e),
        e.refs >= 1,
        e.releases == 0,
        e.target matches HandleTarget::Value(c) ==> pre.content_wf(c),
    ensures
        post.wf(),
{
    assert forall|i: int| 0 <= i < post.slot_count() implies post.content_wf(
        #[trigger] post.slots()[i],
    ) by {
        assert(pre.content_wf(pre.slots()[i]));
    }
    assert forall|l: int| 0 <= l < post.lists_len() implies #[trigger] post.list_at(l).len()
        < i32::MAX as int by {
        assert(pre.list_at(l).len() < i32::MAX as int);
    }
    assert forall|l: int, j: int|
        0 <= l < post.lists_len() && 0 <= j < post.list_at(l).len() implies post.content_wf(
        #[trigger] post.list_at(l)[j],
    ) by {
        assert(pre.content_wf(pre.list_at(l)[j]));
    }
    assert forall|h: int| 0 <= h < post.handles_len() implies {
        let en = #[trigger] post.handle_at(h);
        &&& en.releases == if en.refs == 0 {
            1u64
        } else {
            0u64
        }
        &&& (en.target matches HandleTarget::Value(c) ==> post.content_wf(c))
    } by {
        if h < pre.handles_len() {
            let en = pre.handle_at(h);
            assert(en.releases == if en.refs == 0 {
                1u64
            } else {
                0u64
            });
            assert(en.target matches HandleTarget::Value(c) ==> pre.content_wf(c));
        } else {
            assert(post.handle_at(h) == e);
        }
    }
}

/// The instance invariant survives replacing one handle entry, as long as the
/// new entry keeps its target and satisfies the release discipline.
pub proof fn lemma_wf_handle_update(pre: VM, post: VM, id: int)
    requires
        pre.wf(),
        post.engine.slots == pre.engine.slots,
        post.engine.strings == pre.engine.strings,
        post.engine.lists == pre.engine.lists,
        post.engine.foreigns == pre.engine.foreigns,
        0 <= id < pre.handles_len(),
        post.handles_len() == pre.handles_len(),
        forall|j: int|
            0 <= j < pre.handles_len() && j != id ==> #[trigger] post.handle_at(j)
                == pre.handle_at(j),
        post.handle_at(id).releases == if post.handle_at(id).refs == 0 {
            1u64
        } else {
            0u64
        },
        post.handle_at(id).target == pre.handle_at(id).target,
    ensures
        post.wf(),
{
    assert forall|i: int| 0 <= i < post.slot_count() implies post.content_wf(
        #[trigger] post.slots()[i],
    ) by {
        assert(pre.content_wf(pre.slots()[i]));
    }
    assert forall|l: int| 0 <= l < post.lists_len() implies #[trigger] post.list_at(l).len()
        < i32::MAX as int by {
        assert(pre.list_at(l).len() < i32::MAX as int);
    }
    assert forall|l: int, j: int|
        0 <= l < post.lists_len() && 0 <= j < post.list_at(l).len() implies post.content_wf(
        #[trigger] post.list_at(l)[j],
    ) by {
        assert(pre.content_wf(pre.list_at(l)[j]));
    }
    assert forall|h: int| 0 <= h < post.handles_len() implies {
        let en = #[trigger] post.handle_at(h);
        &&& en.releases == if en.refs == 0 {
            1u64
        } else {
            0u64
        }
        &&& (en.target matches HandleTarget::Value(c) ==> post.content_wf(c))
    } by {
        let en = pre.handle_at(h);
        assert(en.releases == if en.refs == 0 {
            1u64
        } else {
            0u64
        });
        assert(en.target matches HandleTarget::Value(c) ==> pre.content_wf(c));
    }
}

/// The instance invariant survives inserting well-formed content into a list.
pub proof fn lemma_wf_list_insert(pre: VM, post: VM, l: int, pos: int, elem: SlotContent)
    requires
        pre.wf(),
        post.engine.slots == pre.engine.slots,
        post.engine.strings == pre.engine.strings,
        post.engine.foreigns == pre.engine.foreigns,
        post.engine.handles == pre.engine.handles,
        0 <= l < pre.lists_len(),
        post.lists_len() == pre.lists_len(),
        0 <= pos <= pre.list_at(l).len(),
        pre.list_at(l).len() + 1 < i32::MAX as int,
        post.list_at(l) == pre.list_at(l).insert(pos, elem),
        forall|k: int|
            0 <= k < post.lists_len() && k != l ==> #[trigger] post.list_at(k) == pre.list_at(k),
        pre.content_wf(elem),
    ensures
        post.wf(),
{
    pre.list_at(l).insert_ensures(pos, elem);
    assert forall|i: int| 0 <= i < post.slot_count() implies post.content_wf(
        #[trigger] post.slots()[i],
    ) by {
        assert(pre.content_wf(pre.slots()[i]));
    }
    assert forall|k: int| 0 <= k < post.lists_len() implies #[trigger] post.list_at(k).len()
        < i32::MAX as int by {
        assert(pre.list_at(k).len() < i32::MAX as int);
    }
    assert forall|k: int, j: int|
        0 <= k < post.lists_len() && 0 <= j < post.list_at(k).len() implies post.content_wf(
        #[trigger] post.list_at(k)[j],
    ) by {
        if k != l {
            assert(pre.content_wf(pre.list_at(k)[j]));
        } else {
            if j < pos {
                assert(post.list_at(l)[j] == pre.list_at(l)[j]);
                assert(pre.content_wf(pre.list_at(l)[j]));
            } else if j == pos {
                assert(post.list_at(l)[j] == elem);
            } else {
                assert(post.list_at(l)[j] == pre.list_at(l)[j - 1]);
                assert(pre.content_wf(pre.list_at(l)[j - 1]));
            }
        }
    }
    assert forall|h: int| 0 <= h < post.handles_len() implies {
        let e = #[trigger] post.handle_at(h);
        &&& e.releases == if e.refs == 0 {
            1u64
        } else {
            0u64
        }
        &&& (e.target matches HandleTarget::Value(c) ==> post.content_wf(c))
    } by {
        let e = pre.handle_at(h);
        assert(e.releases == if e.refs == 0 {
            1u64
        } else {
            0u64
        });
        assert(e.target matches HandleTarget::Value(c) ==> pre.content_wf(c));
    }
}

/// The instance invariant survives growing the stores: slot contents refer
/// into them by index, so adding strings, foreign objects or empty lists
/// breaks no reference.
pub proof fn lemma_wf_store_growth(pre: VM, post: VM)
    requires
        pre.wf(),
        post.engine.slots == pre.engine.slots,
        pre.strs_len() <= post.strs_len(),
        pre.foreigns_len() <= post.foreigns_len(),
        pre.lists_len() <= post.lists_len(),
        forall|l: int| 0 <= l < pre.lists_len() ==> #[trigger] post.list_at(l) == pre.list_at(l),
        forall|l: int|
            pre.lists_len() <= l < post.lists_len() ==> #[trigger] post.list_at(l).len() == 0,
        post.engine.handles == pre.engine.handles,
    ensures
        post.wf(),
{
    assert forall|i: int| 0 <= i < post.slot_count() implies post.content_wf(
        #[trigger] post.slots()[i],
    ) by {
        assert(pre.content_wf(pre.slots()[i]));
    }
    assert forall|l: int| 0 <= l < post.lists_len() implies #[trigger] post.list_at(l).len()
        < i32::MAX as int by {
        if l < pre.lists_len() {
            assert(pre.list_at(l).len() < i32::MAX as int);
        }
    }
    assert forall|l: int, j: int|
        0 <= l < post.lists_len() && 0 <= j < post.list_at(l).len() implies post.content_wf(
        #[trigger] post.list_at(l)[j],
    ) by {
        assert(l < pre.lists_len());
        assert(pre.content_wf(pre.list_at(l)[j]));
    }
    assert forall|h: int| 0 <= h < post.handles_len() implies {
        let e = #[trigger] post.handle_at(h);
        &&& e.releases == if e.refs == 0 {
            1u64
        } else {
            0u64
        }
        &&& (e.target matches HandleTarget::Value(c) ==> post.content_wf(c))
    } by {
        let e = pre.handle_at(h);
        assert(e.releases == if e.refs == 0 {
            1u64
        } else {
            0u64
        });
        assert(e.target matches HandleTarget::Value(c) ==> pre.content_wf(c));
    }
}

/// The instance invariant only looks at the stores and the register file, so
/// it survives any change that leaves those five parts alone.
pub proof fn lemma_wf_same_stores(pre: VM, post: VM)
    requires
        pre.wf(),
        post.engine.slots == pre.engine.slots,
        same_stores(pre, post),
    ensures
        post.wf(),
{
    assert forall|i: int| 0 <= i < post.slot_count() implies post.content_wf(
        #[trigger] post.slots()[i],
    ) by {
        assert(pre.content_wf(pre.slots()[i]));
    }
    lemma_wf_parts(pre, post);
}

/// The instance invariant survives a slot write of well-formed content.
pub proof fn lemma_wf_slot_write(pre: VM, post: VM, slot: int, c: SlotContent)
    requires
        pre.wf(),
        0 <= slot,
        slot < i32::MAX as int,
        slot_write(pre, post, slot, c),
        same_stores(pre, post),
        pre.content_wf(c),
    ensures
        post.wf(),
{
    assert forall|i: int| 0 <= i < post.slot_count() implies post.content_wf(
        #[trigger] post.slots()[i],
    ) by {
        if i == slot {
            assert(post.slots()[i] == c);
        } else if i < pre.slot_count() {
            assert(pre.content_wf(pre.slots()[i]));
        } else {
            assert(post.slots()[i] == SlotContent::Unknown);
        }
    }
    lemma_wf_parts(pre, post);
}

/// The string, list, foreign and handle stores are unchanged.
pub open spec fn same_stores(pre: VM, post: VM) -> bool {
    &&& post.engine.strings == pre.engine.strings
    &&& post.engine.lists == pre.engine.lists
    &&& post.engine.foreigns == pre.engine.foreigns
    &&& post.engine.handles == pre.engine.handles
}

/// The user-data word, the abort flag, liveness, the configuration and the
/// ownership decision are unchanged.
pub open spec fn same_control(pre: VM, post: VM) -> bool {
    &&& post.engine.user_data == pre.engine.user_data
    &&& post.engine.aborted == pre.engine.aborted
    &&& post.engine.alive == pre.engine.alive
    &&& post.engine.config == pre.engine.config
    &&& post.owned == pre.owned
}

} // verus!

