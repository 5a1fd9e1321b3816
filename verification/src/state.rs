//! Restart-surviving VM ownership classification.
//!
//! One registry records which VMs automatic scaling may and may not manage. A
//! VM is classified once; the classification never changes afterwards.
use vstd::prelude::*;
use vstd::string::*;

use crate::names::NameSet;
use crate::text::{decimal, decimal_text};
use crate::util::Path;

verus! {

/// Why the ownership registry could not be used.
#[derive(Debug)]
pub enum StateError {
    /// The registry file could not be read or written.
    Io(String),
    /// The registry file is not a valid registry.
    SerdeJson(String),
    /// The classification of a VM is inconsistent.
    VmError(String),
}

impl StateError {
    /// The message shown for this error.
    pub open spec fn message(&self) -> Seq<char> {
        match self {
            StateError::Io(why) => why@,
            StateError::SerdeJson(why) => why@,
            StateError::VmError(why) => "VM error: "@ + why@,
        }
    }

    /// Render the error.
    pub fn to_string(&self) -> (r: String)
        ensures
            r@ == self.message(),
    {
        match self {
            StateError::Io(why) => why.clone(),
            StateError::SerdeJson(why) => why.clone(),
            StateError::VmError(why) => "VM error: ".to_owned().concat(why.as_str()),
        }
    }
}

/// VM classifications that survive a process restart.
#[derive(Debug)]
pub struct VmOwnership {
    /// VMs whose first usable snapshot matched backend management policy.
    pub managed_vms: NameSet,
    /// VMs whose first usable snapshot must remain operator-managed.
    pub unmanaged_vms: NameSet,
}

/// The mathematical content of a registry.
pub struct OwnershipModel {
    /// The managed VMs.
    pub managed: Set<Seq<char>>,
    /// The unmanaged VMs.
    pub unmanaged: Set<Seq<char>>,
}

impl OwnershipModel {
    /// No VM is classified both ways.
    pub open spec fn consistent(self) -> bool {
        self.managed.disjoint(self.unmanaged)
    }

    /// The recorded classification of a VM.
    pub open spec fn class_of(self, vm: Seq<char>) -> Option<bool> {
        if self.managed.contains(vm) {
            Some(true)
        } else if self.unmanaged.contains(vm) {
            Some(false)
        } else {
            None
        }
    }

    /// The registry with one more classification.
    pub open spec fn recorded(self, vm: Seq<char>, managed: bool) -> OwnershipModel {
        if managed {
            OwnershipModel { managed: self.managed.insert(vm), unmanaged: self.unmanaged }
        } else {
            OwnershipModel { managed: self.managed, unmanaged: self.unmanaged.insert(vm) }
        }
    }
}

impl View for VmOwnership {
    type V = OwnershipModel;

    open spec fn view(&self) -> OwnershipModel {
        OwnershipModel { managed: self.managed_vms@, unmanaged: self.unmanaged_vms@ }
    }
}

impl Default for VmOwnership {
    fn default() -> (r: Self)
        ensures
            r@.managed == Set::<Seq<char>>::empty(),
            r@.unmanaged == Set::<Seq<char>>::empty(),
    {
        VmOwnership { managed_vms: NameSet::new(), unmanaged_vms: NameSet::new() }
    }
}

impl Clone for VmOwnership {
    fn clone(&self) -> (r: Self)
        ensures
            r@ == self@,
    {
        VmOwnership {
            managed_vms: self.managed_vms.clone(),
            unmanaged_vms: self.unmanaged_vms.clone(),
        }
    }
}

impl VmOwnership {
    /// Return a previously recorded classification.
    pub fn classification(&self, vm_id: &str) -> (r: Option<bool>)
        ensures
            r == self@.class_of(vm_id@),
    {
        if self.managed_vms.contains(vm_id) {
            Some(true)
        } else if self.unmanaged_vms.contains(vm_id) {
            Some(false)
        } else {
            None
        }
    }

    /// Record the immutable classification for one VM. A VM that already has a
    /// classification is refused, and the registry stays as it was.
    pub fn record(&mut self, vm_id: &str, managed: bool) -> (r: Result<(), StateError>)
        ensures
            r is Ok == (old(self)@.class_of(vm_id@) is None),
            r is Ok ==> final(self)@ == old(self)@.recorded(vm_id@, managed),
            r matches Err(error) ==> {
                &&& final(self)@ == old(self)@
                &&& error matches StateError::VmError(why) && why@ == "VM "@ + vm_id@
                    + " already has an ownership classification"@
            },
            final(self)@ == recorded_all(old(self)@, seq![(vm_id@, managed)]),
    {
        proof {
            lemma_recorded_once(self@, vm_id@, managed);
        }
        if self.classification(vm_id).is_some() {
            let mut why = "VM ".to_owned();
            why.append(vm_id);
            why.append(" already has an ownership classification");
            return Err(StateError::VmError(why));
        }
        if managed {
            self.managed_vms.insert(vm_id);
        } else {
            self.unmanaged_vms.insert(vm_id);
        }
        Ok(())
    }

    /// Reject a registry that classifies the same VM both ways.
    pub fn validate(&self) -> (r: Result<(), StateError>)
        ensures
            r is Ok == self@.consistent(),
            r matches Err(error) ==> error matches StateError::VmError(why) && why@
                == "managed_vms and unmanaged_vms overlap"@,
    {
        if !self.managed_vms.is_disjoint(&self.unmanaged_vms) {
            return Err(StateError::VmError("managed_vms and unmanaged_vms overlap".to_owned()));
        }
        Ok(())
    }
}

/// What came of reading the registry file.
pub enum RegistryRead {
    /// There is no registry file.
    Missing,
    /// The file could not be read; the rendered reason.
    Unreadable(String),
    /// The file is not a registry; the rendered reason.
    Malformed(String),
    /// The registry in the file.
    Parsed(VmOwnership),
}

/// What to write to replace the registry atomically: the new contents go to a
/// temporary file next to the registry, which is then renamed over it.
pub struct RegistryWrite {
    /// The registry file.
    pub path: Path,
    /// Extension of the temporary file.
    pub tmp_extension: String,
    /// The registry to serialise.
    pub contents: VmOwnership,
}

/// Store for [`VmOwnership`] in one JSON file.
#[derive(Debug)]
pub struct VmStateStore {
    path: Path,
}

impl VmStateStore {
    /// The registry file.
    pub closed spec fn location(&self) -> Seq<char> {
        self.path@
    }

    /// Address the ownership registry at `path`.
    pub fn new(path: &Path) -> (r: Self)
        ensures
            r.location() == path@,
    {
        Self { path: path.clone() }
    }

    /// The registry file.
    pub fn path(&self) -> (r: &Path)
        ensures
            r@ == self.location(),
    {
        &self.path
    }

    /// Load the registry from what reading its file gave: an absent file is an
    /// empty classification, and a file that classifies a VM both ways is
    /// refused.
    pub fn load(&self, read: RegistryRead) -> (r: Result<VmOwnership, StateError>)
        ensures
            match read {
                RegistryRead::Missing => r matches Ok(state) && state@.managed == Set::<
                    Seq<char>,
                >::empty() && state@.unmanaged == Set::<Seq<char>>::empty(),
                RegistryRead::Unreadable(why) => r matches Err(StateError::Io(said)) && said@
                    == why@,
                RegistryRead::Malformed(why) => r matches Err(StateError::SerdeJson(said)) && said@
                    == why@,
                RegistryRead::Parsed(stored) => if stored@.consistent() {
                    r matches Ok(state) && state@ == stored@
                } else {
                    r matches Err(StateError::VmError(why)) && why@
                        == "managed_vms and unmanaged_vms overlap"@
                },
            },
    {
        match read {
            RegistryRead::Missing => Ok(VmOwnership::default()),
            RegistryRead::Unreadable(why) => Err(StateError::Io(why)),
            RegistryRead::Malformed(why) => Err(StateError::SerdeJson(why)),
            RegistryRead::Parsed(stored) => {
                match stored.validate() {
                    Ok(()) => Ok(stored),
                    Err(error) => Err(error),
                }
            },
        }
    }

    /// Prepare the atomic replacement of the complete registry by the process
    /// `pid`. An inconsistent registry is refused before anything is written.
    pub fn save(&self, state: &VmOwnership, pid: u32) -> (r: Result<RegistryWrite, StateError>)
        ensures
            r is Ok == state@.consistent(),
            r matches Ok(write) ==> {
                &&& write.path@ == self.location()
                &&& write.tmp_extension@ == "json.tmp-"@ + decimal(pid as nat)
                &&& write.contents@ == state@
            },
            r matches Err(error) ==> error matches StateError::VmError(why) && why@
                == "managed_vms and unmanaged_vms overlap"@,
    {
        match state.validate() {
            Ok(()) => {},
            Err(error) => {
                return Err(error);
            },
        }
        let number = decimal_text(pid as u128);
        Ok(
            RegistryWrite {
                path: self.path.clone(),
                tmp_extension: "json.tmp-".to_owned().concat(number.as_str()),
                contents: state.clone(),
            },
        )
    }
}

impl Clone for VmStateStore {
    fn clone(&self) -> (r: Self)
        ensures
            r.location() == self.location(),
    {
        VmStateStore { path: self.path.clone() }
    }
}

/// A recorded VM has the recorded classification, and every other VM keeps its
/// own.
pub proof fn recording_classifies_one_vm(
    state: OwnershipModel,
    vm: Seq<char>,
    managed: bool,
    other: Seq<char>,
)
    requires
        state.class_of(vm) is None,
    ensures
        state.recorded(vm, managed).class_of(vm) == Some(managed),
        other != vm ==> state.recorded(vm, managed).class_of(other) == state.class_of(other),
{
}

/// Recording keeps a registry consistent.
pub proof fn recording_keeps_consistency(state: OwnershipModel, vm: Seq<char>, managed: bool)
    requires
        state.consistent(),
        state.class_of(vm) is None,
    ensures
        state.recorded(vm, managed).consistent(),
{
}

/// A classification is immutable: whatever is recorded later, a classified VM
/// keeps its classification.
pub proof fn classifications_are_immutable(
    state: OwnershipModel,
    vm: Seq<char>,
    later: Seq<(Seq<char>, bool)>,
)
    requires
        state.class_of(vm) is Some,
    ensures
        recorded_all(state, later).class_of(vm) == state.class_of(vm),
    decreases later.len(),
{
    if later.len() > 0 {
        classifications_are_immutable(state, vm, later.drop_last());
    }
}

/// The registry after a series of [`VmOwnership::record`] calls; refused calls
/// leave it as it was.
pub open spec fn recorded_all(state: OwnershipModel, calls: Seq<(Seq<char>, bool)>) -> OwnershipModel
    decreases calls.len(),
{
    if calls.len() == 0 {
        state
    } else {
        let before = recorded_all(state, calls.drop_last());
        let (vm, managed) = calls.last();
        if before.class_of(vm) is None {
            before.recorded(vm, managed)
        } else {
            before
        }
    }
}

/// Every registry reached from the empty one by recording is consistent.
pub proof fn reachable_registries_are_consistent(calls: Seq<(Seq<char>, bool)>)
    ensures
        recorded_all(
            OwnershipModel { managed: Set::empty(), unmanaged: Set::empty() },
            calls,
        ).consistent(),
    decreases calls.len(),
{
    if calls.len() > 0 {
        reachable_registries_are_consistent(calls.drop_last());
    }
}

/// A registry that was saved loads back as it was.
pub proof fn saved_registries_load_back(
    store: VmStateStore,
    state: VmOwnership,
    pid: u32,
    write: RegistryWrite,
    loaded: Result<VmOwnership, StateError>,
)
    requires
        call_ensures(VmStateStore::save, (&store, &state, pid), Ok::<RegistryWrite, StateError>(write)),
        call_ensures(VmStateStore::load, (&store, RegistryRead::Parsed(write.contents)), loaded),
    ensures
        loaded matches Ok(again) && again@ == state@,
{
}

/// A VM is managed or unmanaged as the set that it was recorded in says, and
/// recording adds it to the set of its classification alone.
pub proof fn classifications_say_which_set(state: OwnershipModel, vm: Seq<char>, managed: bool)
    ensures
        state.class_of(vm) == Some(true) <==> state.managed.contains(vm),
        state.class_of(vm) == Some(false) <==> state.unmanaged.contains(vm)
            && !state.managed.contains(vm),
        state.recorded(vm, true).managed == state.managed.insert(vm),
        state.recorded(vm, true).unmanaged == state.unmanaged,
        state.recorded(vm, false).managed == state.managed,
        state.recorded(vm, false).unmanaged == state.unmanaged.insert(vm),
{
}

/// A registry is consistent exactly when no VM is recorded both ways.
pub proof fn consistency_means_one_class_per_vm(state: OwnershipModel)
    ensures
        state.consistent() <==> forall|vm: Seq<char>|
            !(#[trigger] state.managed.contains(vm) && state.unmanaged.contains(vm)),
{
}

proof fn lemma_recorded_once(state: OwnershipModel, vm: Seq<char>, managed: bool)
    ensures
        recorded_all(state, seq![(vm, managed)]) == if state.class_of(vm) is None {
            state.recorded(vm, managed)
        } else {
            state
        },
{
    let calls = seq![(vm, managed)];
    assert(calls.drop_last() == Seq::<(Seq<char>, bool)>::empty());
    assert(recorded_all(state, calls.drop_last()) == state);
    assert(calls.last() == (vm, managed));
}

/// An absent file means that no VM is classified; a registry that classifies a VM
/// both ways is neither loaded nor saved; a saved one goes to the store's file by way
/// of a temporary one of the process's own.
pub proof fn inconsistent_registries_are_refused(
    store: VmStateStore,
    state: VmOwnership,
    pid: u32,
    saved: Result<RegistryWrite, StateError>,
    loaded: Result<VmOwnership, StateError>,
    absent: Result<VmOwnership, StateError>,
    vm: Seq<char>,
)
    requires
        call_ensures(VmStateStore::save, (&store, &state, pid), saved),
        call_ensures(VmStateStore::load, (&store, RegistryRead::Parsed(state)), loaded),
        call_ensures(VmStateStore::load, (&store, RegistryRead::Missing), absent),
    ensures
        state@.managed.contains(vm) && state@.unmanaged.contains(vm) ==> saved is Err && loaded
            is Err,
        state@.managed.disjoint(state@.unmanaged) ==> saved is Ok && loaded is Ok,
        saved matches Ok(write) ==> write.path@ == store.location() && decimal(
            pid as nat,
        ).is_suffix_of(write.tmp_extension@),
        absent matches Ok(none) && !none@.managed.contains(vm) && !none@.unmanaged.contains(vm),
{
    if let Ok(write) = saved {
        let own = decimal(pid as nat);
        let whole = "json.tmp-"@ + own;
        assert(whole.subrange(whole.len() - own.len(), whole.len() as int) =~= own);
    }
}

} // verus!
