//! The loaded logs and the handles by which they are addressed.
use std::collections::HashMap;
use vstd::prelude::*;

use crate::metadata::NativeOcel;
use crate::text::{decimal, decimal_i64, joined};

verus! {

/// The loaded logs by their handles, and the handle that comes next.
#[derive(Debug)]
pub struct Registry {
    next: i64,
    natives: HashMap<i64, NativeOcel>,
}

/// What a registry holds.
pub struct RegistryModel {
    pub next: i64,
    pub natives: Map<i64, NativeOcel>,
}

impl View for Registry {
    type V = RegistryModel;

    closed spec fn view(&self) -> RegistryModel {
        RegistryModel { next: self.next, natives: self.natives@ }
    }
}

impl RegistryModel {
    /// Handles count up from 1, those given out come before the next one, and the logs behind them
    /// have their metadata.
    pub open spec fn well_formed(self) -> bool {
        &&& self.next >= 1
        &&& forall|handle: i64| #[trigger]
            self.natives.contains_key(handle) ==> 1 <= handle < self.next
                && self.natives[handle].deep_view().well_formed()
    }

    /// The registry after a log has been registered.
    pub open spec fn registered(self, native: NativeOcel) -> RegistryModel {
        RegistryModel {
            next: if self.next == i64::MAX {
                i64::MIN
            } else {
                (self.next + 1) as i64
            },
            natives: self.natives.insert(self.next, native),
        }
    }

    /// The registry after a handle has been freed.
    pub open spec fn freed(self, handle: i64) -> RegistryModel {
        if handle <= 0 {
            self
        } else {
            RegistryModel { natives: self.natives.remove(handle), ..self }
        }
    }
}

/// The message on a registry that a panic has left in an unknown state.
pub open spec fn poisoned_text() -> Seq<char> {
    "Native OCEL registry is poisoned."@
}

/// The log behind a handle, or why there is none. The registry is missing where a panic has left
/// it in an unknown state.
pub open spec fn native_at(registry: Option<RegistryModel>, handle: i64) -> Result<
    NativeOcel,
    Seq<char>,
> {
    if handle <= 0 {
        Err("Invalid native OCEL handle."@)
    } else {
        match registry {
            None => Err(poisoned_text()),
            Some(model) => if model.natives.contains_key(handle) {
                Ok(model.natives[handle])
            } else {
                Err("Native OCEL handle "@ + decimal(handle as int) + " is not available."@)
            },
        }
    }
}

/// What a registry that may be missing holds.
pub open spec fn registry_view(registry: Option<&Registry>) -> Option<RegistryModel> {
    match registry {
        Some(r) => Some(r@),
        None => None,
    }
}

/// The message on a registry that a panic has left in an unknown state.
pub fn poisoned() -> (r: String)
    ensures
        r@ == poisoned_text(),
{
    "Native OCEL registry is poisoned.".to_string()
}

impl Registry {
    /// The registry without logs.
    pub fn new() -> (r: Registry)
        ensures
            r@ == (RegistryModel { next: 1, natives: Map::empty() }),
            r@.well_formed(),
    {
        broadcast use vstd::std_specs::hash::group_hash_axioms;

        Registry { next: 1, natives: HashMap::new() }
    }

    /// Registers a log under the next handle and returns that handle.
    pub fn register(&mut self, native: NativeOcel) -> (r: i64)
        ensures
            r == old(self)@.next,
            final(self)@ == old(self)@.registered(native),
            old(self)@.well_formed() && old(self)@.next < i64::MAX
                && native.deep_view().well_formed() ==> final(self)@.well_formed(),
    {
        broadcast use vstd::std_specs::hash::group_hash_axioms;

        let handle: i64 = self.next;
        self.next = if handle == i64::MAX {
            i64::MIN
        } else {
            handle + 1
        };
        let ghost added = native;
        self.natives.insert(handle, native);
        proof {
            if old(self)@.well_formed() && added.deep_view().well_formed() {
                registry_stays_well_formed(old(self)@, added, handle);
            }
        }
        handle
    }

    /// Frees a handle; one that is not positive or not in use is left alone.
    pub fn free(&mut self, handle: i64)
        ensures
            final(self)@ == old(self)@.freed(handle),
            old(self)@.well_formed() ==> final(self)@.well_formed(),
    {
        broadcast use vstd::std_specs::hash::group_hash_axioms;

        if handle <= 0 {
            return ;
        }
        self.natives.remove(&handle);
    }

    fn get(&self, handle: i64) -> (r: Option<&NativeOcel>)
        ensures
            match r {
                Some(native) => self@.natives.contains_key(handle) && self@.natives[handle]
                    == *native,
                None => !self@.natives.contains_key(handle),
            },
    {
        broadcast use vstd::std_specs::hash::group_hash_axioms;

        self.natives.get(&handle)
    }
}

/// The log behind a handle, or why there is none. The registry is missing where a panic has left
/// it in an unknown state.
pub fn with_native(registry: Option<&Registry>, handle: i64) -> (r: Result<&NativeOcel, String>)
    ensures
        match r {
            Ok(native) => native_at(registry_view(registry), handle) == Ok::<NativeOcel, Seq<char>>(
                *native,
            ),
            Err(message) => native_at(registry_view(registry), handle) == Err::<
                NativeOcel,
                Seq<char>,
            >(message@),
        },
{
    if handle <= 0 {
        return Err("Invalid native OCEL handle.".to_string());
    }
    match registry {
        None => Err(poisoned()),
        Some(registry) => match registry.get(handle) {
            Some(native) => Ok(native),
            None => {
                let digits = decimal_i64(handle);
                Err(joined("Native OCEL handle ", digits.as_str(), " is not available."))
            },
        },
    }
}

/// Registering a log with its metadata and freeing a handle keep a registry well formed, and a
/// handle given out is positive and was not in use, as long as the handles last.
pub proof fn registry_stays_well_formed(registry: RegistryModel, native: NativeOcel, handle: i64)
    requires
        registry.well_formed(),
        native.deep_view().well_formed(),
    ensures
        registry.freed(handle).well_formed(),
        registry.next > 0,
        !registry.natives.contains_key(registry.next),
        registry.next < i64::MAX ==> registry.registered(native).well_formed(),
{
}

/// A registered log is found under its handle, and every other handle leads where it did before.
pub proof fn registered_log_is_found(registry: RegistryModel, native: NativeOcel, other: i64)
    requires
        registry.well_formed(),
    ensures
        native_at(Some(registry.registered(native)), registry.next) == Ok::<NativeOcel, Seq<char>>(
            native,
        ),
        other != registry.next ==> native_at(Some(registry.registered(native)), other) == native_at(
            Some(registry),
            other,
        ),
{
}

/// A freed handle leads nowhere, and every other handle leads where it did before.
pub proof fn freed_handle_is_gone(registry: RegistryModel, handle: i64, other: i64)
    ensures
        native_at(Some(registry.freed(handle)), handle) is Err,
        other != handle ==> native_at(Some(registry.freed(handle)), other) == native_at(
            Some(registry),
            other,
        ),
{
}

/// Freeing a handle right after its registration restores the logs that were there.
pub proof fn freeing_undoes_registration(registry: RegistryModel, native: NativeOcel)
    requires
        registry.well_formed(),
    ensures
        registry.registered(native).freed(registry.next).natives == registry.natives,
{
}

} // verus!
