//! What the service knows of the running VM, and the slots that hold it.
use vstd::prelude::*;

verus! {

/// A point in time from the monotonic clock (std's `Instant`).
#[verifier::external_type_specification]
#[verifier::external_body]
pub struct ExInstant(std::time::Instant);

/// The time elapsed since `t` (std's `Instant::elapsed`). It depends on
/// the clock, so nothing is stated of it.
#[verifier::external_body]
pub fn elapsed(t: &std::time::Instant) -> std::time::Duration {
    t.elapsed()
}

/// The whole seconds in a duration (std's `Duration::as_secs`). A duration
/// is opaque here, so nothing is stated of the result.
pub assume_specification[ core::time::Duration::as_secs ](d: &core::time::Duration) -> u64;

/// Cloning an `Instant` (std's `Clone` for the `Copy` type `Instant`)
/// gives the same instant.
pub assume_specification[ <std::time::Instant as Clone>::clone ](t: &std::time::Instant) -> (r: std::time::Instant)
    ensures
        r == *t,
;

/// Represents the current state of the VM.
#[derive(Clone, Debug)]
pub struct VmInfo {
    pub id: String,
    pub ip: Option<String>,
    pub created_at: std::time::Instant,
    /// Path to the Orion log file.
    pub log_file: Option<String>,
}

/// The running VM's details together with the handle used to operate it;
/// both are set and cleared together.
pub struct VmSlots<M> {
    vm: Option<VmInfo>,
    machine: Option<M>,
}

impl<M> VmSlots<M> {
    /// The VM's details, if a VM is running.
    pub closed spec fn vm_view(&self) -> Option<VmInfo> {
        self.vm
    }

    /// The handle of the running VM, if any.
    pub closed spec fn machine_view(&self) -> Option<M> {
        self.machine
    }

    /// Slots that hold nothing.
    pub closed spec fn empty() -> Self {
        VmSlots { vm: None, machine: None }
    }

    /// These slots after recording a VM and its handle.
    pub closed spec fn with_vm(self, info: VmInfo, machine: M) -> Self {
        VmSlots { vm: Some(info), machine: Some(machine) }
    }

    /// These slots after forgetting the VM.
    pub closed spec fn cleared(self) -> Self {
        VmSlots { vm: None, machine: None }
    }

    /// Empty slots: no VM, no handle.
    pub fn new() -> (s: Self)
        ensures
            s == Self::empty(),
    {
        VmSlots { vm: None, machine: None }
    }

    /// Records a VM and its handle.
    pub fn set_vm(&mut self, info: VmInfo, machine: M)
        ensures
            *final(self) == old(self).with_vm(info, machine),
    {
        self.vm = Some(info);
        self.machine = Some(machine);
    }

    /// Forgets the VM and its handle.
    pub fn clear_vm(&mut self)
        ensures
            *final(self) == old(self).cleared(),
    {
        self.vm = None;
        self.machine = None;
    }

    /// The VM's details, if a VM is running.
    pub fn get_vm(&self) -> (r: Option<&VmInfo>)
        ensures
            match (r, self.vm_view()) {
                (Some(a), Some(b)) => *a == b,
                (None, None) => true,
                _ => false,
            },
    {
        match &self.vm {
            Some(v) => Some(v),
            None => None,
        }
    }

    /// The handle of the running VM, if any.
    pub fn get_machine(&self) -> (r: Option<&M>)
        ensures
            match (r, self.machine_view()) {
                (Some(a), Some(b)) => *a == b,
                (None, None) => true,
                _ => false,
            },
    {
        match &self.machine {
            Some(m) => Some(m),
            None => None,
        }
    }
}

/// What the reads give back: nothing on new slots; the VM and the handle
/// last recorded; nothing after clearing, whatever was there before.
pub proof fn law_slots_read_what_was_written<M>(s: VmSlots<M>, info: VmInfo, machine: M)
    ensures
        VmSlots::<M>::empty().vm_view() is None,
        VmSlots::<M>::empty().machine_view() is None,
        s.with_vm(info, machine).vm_view() == Some(info),
        s.with_vm(info, machine).machine_view() == Some(machine),
        s.cleared().vm_view() is None,
        s.cleared().machine_view() is None,
{
}

} // verus!
