//! Backend errors, the backend registry and control-socket discovery.
//!
//! A backend discovers zero or more VMs. The registry builds every linked-in
//! backend and keeps the result in a stable order; discovery turns directory
//! entries and socket probes into VM identities.
use vstd::prelude::*;
use vstd::string::*;

use crate::order::{is_stable_order, stable_order};
use crate::text::texts;
use crate::util::{is_absolute, join_texts, joined, Path};

verus! {

/// Failure returned by a backend client operation.
#[derive(Debug)]
pub enum BackendClientError {
    /// The backend deliberately does not implement this operation.
    NotSupported(String),
    /// The transport disconnected while serving the request.
    Disconnected(String),
    /// Any other transport or framing failure.
    Transport(String),
    /// Protocol or framing error (payload limits, UTF-8, refusals, parse text).
    Protocol(String),
    /// Incomplete or inconsistent backend or host process state.
    InvalidState(String),
}

impl BackendClientError {
    /// The message shown for this error.
    pub open spec fn message(&self) -> Seq<char> {
        match self {
            BackendClientError::NotSupported(what) =>
                "operation not supported on this backend: "@ + what@,
            BackendClientError::Disconnected(why) => "disconnected: "@ + why@,
            BackendClientError::Transport(why) => "transport: "@ + why@,
            BackendClientError::Protocol(why) => why@,
            BackendClientError::InvalidState(why) => why@,
        }
    }

    /// Render the error.
    pub fn to_string(&self) -> (r: String)
        ensures
            r@ == self.message(),
    {
        match self {
            BackendClientError::NotSupported(what) => {
                "operation not supported on this backend: ".to_owned().concat(what.as_str())
            },
            BackendClientError::Disconnected(why) => "disconnected: ".to_owned().concat(
                why.as_str(),
            ),
            BackendClientError::Transport(why) => "transport: ".to_owned().concat(why.as_str()),
            BackendClientError::Protocol(why) => why.clone(),
            BackendClientError::InvalidState(why) => why.clone(),
        }
    }
}

/// The optional operations on named IOThreads.
#[derive(Debug, Clone, Copy, PartialEq, Eq, Structural)]
pub enum IoThreadOperation {
    /// Create a named IOThread.
    Add,
    /// Delete a named IOThread.
    Delete,
    /// Replace a device's virtqueue-to-IOThread mapping.
    SetVqMapping,
    /// Fetch a device's virtqueue-to-IOThread mapping.
    GetVqMapping,
}

impl IoThreadOperation {
    /// The name of the operation in an error.
    pub open spec fn name(self) -> Seq<char> {
        match self {
            IoThreadOperation::Add => "add IOThread"@,
            IoThreadOperation::Delete => "delete IOThread"@,
            IoThreadOperation::SetVqMapping => "set IOThread virtqueue mapping"@,
            IoThreadOperation::GetVqMapping => "get IOThread virtqueue mapping"@,
        }
    }

    /// The answer of a backend that does not implement the operation.
    pub fn unsupported(self) -> (r: BackendClientError)
        ensures
            r matches BackendClientError::NotSupported(what) && what@ == self.name(),
    {
        let what = match self {
            IoThreadOperation::Add => "add IOThread",
            IoThreadOperation::Delete => "delete IOThread",
            IoThreadOperation::SetVqMapping => "set IOThread virtqueue mapping",
            IoThreadOperation::GetVqMapping => "get IOThread virtqueue mapping",
        };
        BackendClientError::NotSupported(what.to_owned())
    }
}

// ---------------------------------------------------------------------------
// Registry
// ---------------------------------------------------------------------------
/// A built backend together with its stable name.
pub struct NamedBackend<B> {
    /// Stable name used in logs and configuration.
    pub name: String,
    /// The backend itself.
    pub backend: B,
}

/// One backend factory.
pub struct BackendRegistration<F> {
    /// Stable backend name used in logs and diagnostics.
    pub name: &'static str,
    /// Build the backend from the backend configuration directory.
    pub build: F,
}

/// The names of built backends, in order.
pub open spec fn backend_names<B>(built: Seq<NamedBackend<B>>) -> Seq<Seq<char>> {
    built.map_values(|b: NamedBackend<B>| b.name@)
}

/// `built` holds, for every registration in turn, a backend its factory returned.
pub open spec fn builds<B, F: Fn(&Path) -> Result<NamedBackend<B>, BackendClientError>>(
    registrations: Seq<BackendRegistration<F>>,
    dir: &Path,
    built: Seq<NamedBackend<B>>,
) -> bool {
    &&& built.len() <= registrations.len()
    &&& forall|i: int|
        0 <= i < built.len() ==> call_ensures(
            registrations[i].build,
            (dir,),
            Ok::<NamedBackend<B>, BackendClientError>(#[trigger] built[i]),
        )
}

/// `sorted` holds the backends of `built` by ascending name; backends of one
/// name keep the order in which they were built.
pub open spec fn sorted_by_name<B>(
    built: Seq<NamedBackend<B>>,
    sorted: Seq<NamedBackend<B>>,
) -> bool {
    exists|order: Seq<usize>|
        #![trigger is_stable_order(backend_names(built), order)]
        is_stable_order(backend_names(built), order) && sorted == Seq::new(
            order.len(),
            |k: int| built[order[k] as int],
        )
}

/// Build every registered backend in turn and put the result into a stable
/// order. The first factory that fails ends the construction with its error.
pub fn registered_backends<B, F: Fn(&Path) -> Result<NamedBackend<B>, BackendClientError>>(
    registrations: &Vec<BackendRegistration<F>>,
    dir: &Path,
) -> (r: Result<Vec<NamedBackend<B>>, BackendClientError>)
    requires
        forall|i: int|
            0 <= i < registrations@.len() ==> call_requires(
                (#[trigger] registrations@[i]).build,
                (dir,),
            ),
    ensures
        r matches Ok(backends) ==> exists|built: Seq<NamedBackend<B>>| #[trigger]
            builds(registrations@, dir, built) && built.len() == registrations@.len()
                && sorted_by_name(built, backends@),
        r matches Err(error) ==> exists|built: Seq<NamedBackend<B>>| #[trigger]
            builds(registrations@, dir, built) && built.len() < registrations@.len()
                && call_ensures(
                registrations@[built.len() as int].build,
                (dir,),
                Err::<NamedBackend<B>, BackendClientError>(error),
            ),
{
    let mut names: Vec<String> = Vec::new();
    let mut slots: Vec<Option<NamedBackend<B>>> = Vec::new();
    let ghost mut built: Seq<NamedBackend<B>> = Seq::empty();
    let mut i: usize = 0;
    while i < registrations.len()
        invariant
            i <= registrations@.len(),
            built.len() == i,
            slots@.len() == i,
            names@.len() == i,
            builds(registrations@, dir, built),
            forall|k: int| 0 <= k < i ==> #[trigger] slots@[k] == Some(built[k]),
            forall|k: int| 0 <= k < i ==> (#[trigger] names@[k])@ == built[k].name@,
            forall|k: int|
                0 <= k < registrations@.len() ==> call_requires(
                    (#[trigger] registrations@[k]).build,
                    (dir,),
                ),
        decreases registrations@.len() - i,
    {
        let build = &registrations[i].build;
        assert(call_requires(registrations@[i as int].build, (dir,)));
        match build(dir) {
            Ok(backend) => {
                names.push(backend.name.clone());
                proof {
                    built = built.push(backend);
                }
                slots.push(Some(backend));
            },
            Err(error) => {
                assert(builds(registrations@, dir, built));
                return Err(error);
            },
        }
        i += 1;
    }
    let order = stable_order(&names);
    assert(texts(names@) == backend_names(built));
    let mut sorted: Vec<NamedBackend<B>> = Vec::new();
    let mut k: usize = 0;
    while k < order.len()
        invariant
            k <= order@.len(),
            built.len() == order@.len(),
            slots@.len() == built.len(),
            is_stable_order(backend_names(built), order@),
            sorted@ == Seq::new(k as nat, |j: int| built[order@[j] as int]),
            forall|j: int| k <= j < order@.len() ==> slots@[#[trigger] order@[j] as int] == Some(
                built[order@[j] as int],
            ),
        decreases order@.len() - k,
    {
        let at: usize = order[k];
        let ghost before = slots@;
        match slots[at].take() {
            Some(backend) => {
                sorted.push(backend);
            },
            None => {
                assert(false);
            },
        }
        proof {
            assert forall|j: int| k + 1 <= j < order@.len() implies slots@[#[trigger] order@[j]
                as int] == Some(built[order@[j] as int]) by {
                assert(order@[j] != order@[k as int]);
            }
        }
        k += 1;
        assert(sorted@ == Seq::new(k as nat, |j: int| built[order@[j] as int]));
    }
    assert(sorted_by_name(built, sorted@));
    Ok(sorted)
}

// ---------------------------------------------------------------------------
// Control-socket discovery
// ---------------------------------------------------------------------------
/// What was learnt about one entry of the socket directory.
pub struct SocketEntry {
    /// Whether the entry is a directory; `None` when its metadata is unreadable.
    pub is_dir: Option<bool>,
    /// The entry's name; `None` when it is not valid UTF-8.
    pub name: Option<String>,
}

/// A VM whose control socket is worth probing.
pub struct SocketCandidate {
    /// VM identifier.
    pub id: String,
    /// The control socket.
    pub sock_path: Path,
}

/// The answer of a control socket.
pub enum PeerProbe {
    /// The process at the far end.
    Peer(i32),
    /// There is no such socket.
    NotFound,
    /// The peer could not be identified.
    Failed(String),
}

/// A VM found behind its control socket.
pub struct DiscoveredVm {
    /// VM identifier.
    pub id: String,
    /// The control socket.
    pub sock_path: Path,
    /// The process at the far end.
    pub pid: i32,
}

/// A VM that was skipped, with the reason to log.
pub struct ProbeWarning {
    /// VM identifier.
    pub id: String,
    /// Why the peer could not be identified.
    pub error: String,
}

/// Whether an entry names a VM: a readable directory with a UTF-8 name.
pub open spec fn names_a_vm(entry: SocketEntry) -> bool {
    entry.is_dir == Some(true) && entry.name is Some
}

/// The control socket of a VM below `dir`: `dir/<id>/<socket_name>`.
pub open spec fn socket_path(dir: Seq<char>, id: Seq<char>, socket_name: Seq<char>) -> Seq<char> {
    joined(dir, joined(id, socket_name))
}

/// The candidate made of one entry.
pub open spec fn is_candidate(
    dir: Seq<char>,
    socket_name: Seq<char>,
    entry: SocketEntry,
    candidate: SocketCandidate,
) -> bool {
    &&& candidate.id@ == entry.name->0@
    &&& candidate.sock_path@ == socket_path(dir, entry.name->0@, socket_name)
}

/// The entries that name a VM, in directory order.
pub open spec fn vm_entries(entries: Seq<SocketEntry>) -> Seq<SocketEntry> {
    entries.filter(|e: SocketEntry| names_a_vm(e))
}

/// Select the VMs laid out as `dir/<id>/<socket_name>`.
pub fn socket_candidates(
    dir: &Path,
    socket_name: &str,
    entries: &Vec<SocketEntry>,
) -> (r: Vec<SocketCandidate>)
    ensures
        r@.len() == vm_entries(entries@).len(),
        forall|i: int|
            0 <= i < r@.len() ==> is_candidate(
                dir@,
                socket_name@,
                vm_entries(entries@)[i],
                #[trigger] r@[i],
            ),
{
    let mut out: Vec<SocketCandidate> = Vec::new();
    let ghost keep = |e: SocketEntry| names_a_vm(e);
    let mut i: usize = 0;
    assert(entries@.take(0).filter(keep) == Seq::<SocketEntry>::empty()) by {
        reveal(Seq::filter);
    }
    while i < entries.len()
        invariant
            i <= entries@.len(),
            keep == (|e: SocketEntry| names_a_vm(e)),
            out@.len() == entries@.take(i as int).filter(keep).len(),
            forall|k: int|
                0 <= k < out@.len() ==> is_candidate(
                    dir@,
                    socket_name@,
                    entries@.take(i as int).filter(keep)[k],
                    #[trigger] out@[k],
                ),
        decreases entries@.len() - i,
    {
        proof {
            assert(entries@.take(i + 1).drop_last() == entries@.take(i as int));
            reveal(Seq::filter);
        }
        let entry = &entries[i];
        if let Some(true) = entry.is_dir {
            if let Some(name) = &entry.name {
                let inner = join_texts(name.as_str(), socket_name);
                let sock_path = dir.child(inner.as_str());
                out.push(SocketCandidate { id: name.clone(), sock_path });
            }
        }
        i += 1;
    }
    assert(entries@.take(entries@.len() as int) == entries@);
    out
}

/// The position of the candidates that answered with a peer, in order.
pub open spec fn answered(probes: Seq<PeerProbe>) -> Seq<int>
    decreases probes.len(),
{
    if probes.len() == 0 {
        seq![]
    } else if probes.last() is Peer {
        answered(probes.drop_last()).push(probes.len() - 1)
    } else {
        answered(probes.drop_last())
    }
}

/// The positions of the probes that failed for another reason than a missing
/// socket, in order.
pub open spec fn failed(probes: Seq<PeerProbe>) -> Seq<int>
    decreases probes.len(),
{
    if probes.len() == 0 {
        seq![]
    } else if probes.last() is Failed {
        failed(probes.drop_last()).push(probes.len() - 1)
    } else {
        failed(probes.drop_last())
    }
}

/// `vm` is the candidate at `at`, whose socket answered with the VM's process.
pub open spec fn admitted(
    candidates: Seq<SocketCandidate>,
    probes: Seq<PeerProbe>,
    at: int,
    vm: DiscoveredVm,
) -> bool {
    &&& 0 <= at < probes.len()
    &&& vm.id@ == candidates[at].id@
    &&& vm.sock_path@ == candidates[at].sock_path@
    &&& probes[at] == PeerProbe::Peer(vm.pid)
}

/// `warning` tells why the candidate at `at` was skipped.
pub open spec fn warned(
    candidates: Seq<SocketCandidate>,
    probes: Seq<PeerProbe>,
    at: int,
    warning: ProbeWarning,
) -> bool {
    &&& 0 <= at < probes.len()
    &&& warning.id@ == candidates[at].id@
    &&& probes[at] matches PeerProbe::Failed(error) && warning.error@ == error@
}

/// Keep the candidates whose socket answered with a peer process. A missing
/// socket is skipped silently, any other failure with a warning.
pub fn admit_peers(candidates: &Vec<SocketCandidate>, probes: &Vec<PeerProbe>) -> (r: (
    Vec<DiscoveredVm>,
    Vec<ProbeWarning>,
))
    requires
        candidates@.len() == probes@.len(),
    ensures
        r.0@.len() == answered(probes@).len(),
        forall|k: int|
            0 <= k < r.0@.len() ==> admitted(
                candidates@,
                probes@,
                answered(probes@)[k],
                #[trigger] r.0@[k],
            ),
        r.1@.len() == failed(probes@).len(),
        forall|k: int|
            0 <= k < r.1@.len() ==> warned(
                candidates@,
                probes@,
                failed(probes@)[k],
                #[trigger] r.1@[k],
            ),
{
    let mut found: Vec<DiscoveredVm> = Vec::new();
    let mut warnings: Vec<ProbeWarning> = Vec::new();
    let mut i: usize = 0;
    while i < probes.len()
        invariant
            i <= probes@.len(),
            candidates@.len() == probes@.len(),
            found@.len() == answered(probes@.take(i as int)).len(),
            forall|k: int|
                0 <= k < found@.len() ==> admitted(
                    candidates@,
                    probes@,
                    answered(probes@.take(i as int))[k],
                    #[trigger] found@[k],
                ),
            warnings@.len() == failed(probes@.take(i as int)).len(),
            forall|k: int|
                0 <= k < warnings@.len() ==> warned(
                    candidates@,
                    probes@,
                    failed(probes@.take(i as int))[k],
                    #[trigger] warnings@[k],
                ),
        decreases probes@.len() - i,
    {
        assert(probes@.take(i + 1).drop_last() == probes@.take(i as int));
        assert(probes@.take(i + 1).last() == probes@[i as int]);
        match &probes[i] {
            PeerProbe::Peer(pid) => {
                found.push(
                    DiscoveredVm {
                        id: candidates[i].id.clone(),
                        sock_path: candidates[i].sock_path.clone(),
                        pid: *pid,
                    },
                );
            },
            PeerProbe::NotFound => {},
            PeerProbe::Failed(error) => {
                warnings.push(
                    ProbeWarning { id: candidates[i].id.clone(), error: error.clone() },
                );
            },
        }
        i += 1;
    }
    assert(probes@.take(probes@.len() as int) == probes@);
    (found, warnings)
}

/// The control socket of a VM lies at `dir/<id>/<socket_name>`.
pub proof fn sockets_are_laid_out_by_id(dir: Seq<char>, id: Seq<char>, socket_name: Seq<char>)
    requires
        dir.len() > 0 && dir.last() != '/',
        id.len() > 0 && !id.contains('/'),
        !is_absolute(socket_name),
    ensures
        socket_path(dir, id, socket_name) == dir + seq!['/'] + id + seq!['/'] + socket_name,
{
    assert(id[0] != '/');
    assert(id.last() != '/');
    assert(joined(id, socket_name)[0] == id[0]);
}

/// The admitted positions are exactly those whose probe found a peer, in
/// ascending order.
pub proof fn answered_is_exact(probes: Seq<PeerProbe>)
    ensures
        forall|k: int|
            0 <= k < answered(probes).len() ==> 0 <= #[trigger] answered(probes)[k] < probes.len()
                && probes[answered(probes)[k]] is Peer,
        forall|k: int, l: int|
            0 <= k < l < answered(probes).len() ==> #[trigger] answered(probes)[k]
                < #[trigger] answered(probes)[l],
        forall|i: int|
            0 <= i < probes.len() && (#[trigger] probes[i]) is Peer ==> answered(probes).contains(
                i,
            ),
    decreases probes.len(),
{
    if probes.len() > 0 {
        let rest = probes.drop_last();
        let all = answered(probes);
        let fewer = answered(rest);
        answered_is_exact(rest);
        assert forall|k: int| 0 <= k < all.len() implies 0 <= #[trigger] all[k] < probes.len()
            && probes[all[k]] is Peer by {
            if k < fewer.len() {
                assert(all[k] == fewer[k]);
                assert(rest[fewer[k]] == probes[fewer[k]]);
            }
        }
        assert forall|k: int, l: int| 0 <= k < l < all.len() implies #[trigger] all[k]
            < #[trigger] all[l] by {
            assert(all[k] == fewer[k]);
            if l < fewer.len() {
                assert(all[l] == fewer[l]);
            }
        }
        assert forall|i: int| 0 <= i < probes.len() && (#[trigger] probes[i]) is Peer implies
            all.contains(i) by {
            if i < rest.len() {
                assert(rest[i] == probes[i]);
                let k = choose|k: int| 0 <= k < fewer.len() && fewer[k] == i;
                assert(all[k] == i);
            } else {
                assert(all[all.len() - 1] == i);
            }
        }
    }
}

/// The positions that are warned of are exactly those whose probe failed for
/// another reason than a missing socket, in ascending order.
pub proof fn failed_is_exact(probes: Seq<PeerProbe>)
    ensures
        forall|k: int|
            0 <= k < failed(probes).len() ==> 0 <= #[trigger] failed(probes)[k] < probes.len()
                && probes[failed(probes)[k]] is Failed,
        forall|k: int, l: int|
            0 <= k < l < failed(probes).len() ==> #[trigger] failed(probes)[k]
                < #[trigger] failed(probes)[l],
        forall|i: int|
            0 <= i < probes.len() && (#[trigger] probes[i]) is Failed ==> failed(probes).contains(
                i,
            ),
    decreases probes.len(),
{
    if probes.len() > 0 {
        let rest = probes.drop_last();
        let all = failed(probes);
        let fewer = failed(rest);
        failed_is_exact(rest);
        assert forall|k: int| 0 <= k < all.len() implies 0 <= #[trigger] all[k] < probes.len()
            && probes[all[k]] is Failed by {
            if k < fewer.len() {
                assert(all[k] == fewer[k]);
                assert(rest[fewer[k]] == probes[fewer[k]]);
            }
        }
        assert forall|k: int, l: int| 0 <= k < l < all.len() implies #[trigger] all[k]
            < #[trigger] all[l] by {
            assert(all[k] == fewer[k]);
            if l < fewer.len() {
                assert(all[l] == fewer[l]);
            }
        }
        assert forall|i: int| 0 <= i < probes.len() && (#[trigger] probes[i]) is Failed implies
            all.contains(i) by {
            if i < rest.len() {
                assert(rest[i] == probes[i]);
                let k = choose|k: int| 0 <= k < fewer.len() && fewer[k] == i;
                assert(all[k] == i);
            } else {
                assert(all[all.len() - 1] == i);
            }
        }
    }
}

/// A discovered VM is the candidate of the same position, with the process that
/// its own socket named; a warning is about the candidate whose probe failed.
pub proof fn peers_belong_to_their_candidates(
    candidates: Seq<SocketCandidate>,
    probes: Seq<PeerProbe>,
    at: int,
    vm: DiscoveredVm,
    warning: ProbeWarning,
)
    ensures
        admitted(candidates, probes, at, vm) ==> {
            &&& 0 <= at < probes.len()
            &&& probes[at] matches PeerProbe::Peer(pid)
            &&& vm.pid == pid
            &&& vm.id@ == candidates[at].id@
            &&& vm.sock_path@ == candidates[at].sock_path@
        },
        warned(candidates, probes, at, warning) ==> {
            &&& 0 <= at < probes.len()
            &&& probes[at] matches PeerProbe::Failed(why)
            &&& warning.error@ == why@
            &&& warning.id@ == candidates[at].id@
        },
{
}

/// Every readable directory with a UTF-8 name is a candidate, in directory order,
/// and nothing else is.
pub proof fn entries_are_taken_one_by_one(a: Seq<SocketEntry>, b: Seq<SocketEntry>)
    ensures
        vm_entries(a + b) == vm_entries(a) + vm_entries(b),
        forall|entry: SocketEntry| #[trigger]
            vm_entries(seq![entry]) == if entry.is_dir == Some(true) && entry.name is Some {
                seq![entry]
            } else {
                Seq::empty()
            },
{
    let keep = |e: SocketEntry| names_a_vm(e);
    Seq::filter_distributes_over_add(a, b, keep);
    assert forall|entry: SocketEntry| #[trigger] vm_entries(seq![entry]) == if entry.is_dir
        == Some(true) && entry.name is Some {
        seq![entry]
    } else {
        Seq::empty()
    } by {
        reveal(Seq::filter);
        let one = seq![entry];
        assert(one.drop_last() == Seq::<SocketEntry>::empty());
        assert(one.drop_last().filter(keep) == Seq::<SocketEntry>::empty());
        assert(one.filter(keep) =~= if entry.is_dir == Some(true) && entry.name is Some {
            seq![entry]
        } else {
            Seq::empty()
        });
    }
}

/// A candidate is called like its directory, and its socket lies in it.
pub proof fn candidates_are_named_like_their_directory(
    dir: Seq<char>,
    socket_name: Seq<char>,
    entry: SocketEntry,
    candidate: SocketCandidate,
)
    requires
        is_candidate(dir, socket_name, entry, candidate),
        entry.name is Some,
        dir.len() > 0 && dir.last() != '/',
        candidate.id@.len() > 0 && !candidate.id@.contains('/'),
        !is_absolute(socket_name),
    ensures
        candidate.id@ == entry.name->0@,
        candidate.sock_path@ == dir + seq!['/'] + entry.name->0@ + seq!['/'] + socket_name,
{
    sockets_are_laid_out_by_id(dir, candidate.id@, socket_name);
}

/// The constructed backends come in ascending order of their names, those of the
/// same name as they were registered, and none is lost or doubled.
pub proof fn backends_come_in_name_order<B>(
    built: Seq<NamedBackend<B>>,
    sorted: Seq<NamedBackend<B>>,
)
    requires
        sorted_by_name(built, sorted),
        built.len() <= usize::MAX,
    ensures
        sorted.len() == built.len(),
        forall|k: int, l: int|
            0 <= k < l < sorted.len() ==> crate::order::text_le(
                (#[trigger] sorted[k]).name@,
                (#[trigger] sorted[l]).name@,
            ),
        forall|i: int| 0 <= i < built.len() ==> sorted.contains(#[trigger] built[i]),
{
    let names = backend_names(built);
    let order = choose|order: Seq<usize>|
        #![trigger is_stable_order(names, order)]
        is_stable_order(names, order) && sorted == Seq::new(
            order.len(),
            |k: int| built[order[k] as int],
        );
    assert forall|k: int, l: int| 0 <= k < l < sorted.len() implies crate::order::text_le(
        (#[trigger] sorted[k]).name@,
        (#[trigger] sorted[l]).name@,
    ) by {
        let (i, j) = (order[k], order[l]);
        assert(crate::order::before(names, i, j));
        assert(names[i as int] == sorted[k].name@);
        assert(names[j as int] == sorted[l].name@);
        crate::order::text_order_total(names[i as int], names[j as int]);
    }
    assert forall|i: int| 0 <= i < built.len() implies sorted.contains(#[trigger] built[i]) by {
        assert(order.contains(i as usize));
        let k = choose|k: int| 0 <= k < order.len() && order[k] == i as usize;
        assert(sorted[k] == built[i]);
    }
}

} // verus!
