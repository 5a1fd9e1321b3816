use io_thread_controller::backends::{
    admit_peers, registered_backends, socket_candidates, BackendClientError, BackendRegistration,
    IoThreadOperation, NamedBackend, PeerProbe, SocketEntry,
};
use io_thread_controller::util::Path;

type Factory = fn(&Path) -> Result<NamedBackend<u32>, BackendClientError>;

fn qemu(dir: &Path) -> Result<NamedBackend<u32>, BackendClientError> {
    Ok(NamedBackend { name: "qemu".to_string(), backend: dir.as_str().len() as u32 })
}

fn fake(_dir: &Path) -> Result<NamedBackend<u32>, BackendClientError> {
    Ok(NamedBackend { name: "fake".to_string(), backend: 2 })
}

fn fake_again(_dir: &Path) -> Result<NamedBackend<u32>, BackendClientError> {
    Ok(NamedBackend { name: "fake".to_string(), backend: 3 })
}

fn broken(_dir: &Path) -> Result<NamedBackend<u32>, BackendClientError> {
    Err(BackendClientError::InvalidState("no config".to_string()))
}

#[test]
fn backends_come_in_a_stable_order() {
    let registrations = vec![
        BackendRegistration { name: "qemu", build: qemu as Factory },
        BackendRegistration { name: "fake", build: fake },
        BackendRegistration { name: "fake", build: fake_again },
    ];
    let dir = Path::new("/", "/etc");
    let built = registered_backends(&registrations, &dir).unwrap();
    let names: Vec<&str> = built.iter().map(|b| b.name.as_str()).collect();
    assert_eq!(names, vec!["fake", "fake", "qemu"]);
    let values: Vec<u32> = built.iter().map(|b| b.backend).collect();
    assert_eq!(values, vec![2, 3, 4]);
}

#[test]
fn the_first_failing_backend_ends_the_construction() {
    let registrations = vec![
        BackendRegistration { name: "fake", build: fake as Factory },
        BackendRegistration { name: "broken", build: broken },
    ];
    let dir = Path::new("/", "/etc");
    match registered_backends(&registrations, &dir) {
        Err(error) => assert_eq!(error.to_string(), "no config"),
        Ok(_) => panic!("expected an error"),
    }
}

#[test]
fn errors_have_texts() {
    let texts = vec![
        (
            BackendClientError::NotSupported("x".to_string()),
            "operation not supported on this backend: x",
        ),
        (BackendClientError::Disconnected("gone".to_string()), "disconnected: gone"),
        (BackendClientError::Transport("reset".to_string()), "transport: reset"),
        (BackendClientError::Protocol("bad".to_string()), "bad"),
        (BackendClientError::InvalidState("stale".to_string()), "stale"),
    ];
    for (error, text) in texts {
        assert_eq!(error.to_string(), text);
    }
}

#[test]
fn optional_operations_are_refused_by_name() {
    let texts = vec![
        (IoThreadOperation::Add, "add IOThread"),
        (IoThreadOperation::Delete, "delete IOThread"),
        (IoThreadOperation::SetVqMapping, "set IOThread virtqueue mapping"),
        (IoThreadOperation::GetVqMapping, "get IOThread virtqueue mapping"),
    ];
    for (operation, text) in texts {
        match operation.unsupported() {
            BackendClientError::NotSupported(what) => assert_eq!(what, text),
            other => panic!("wrong error {}", other.to_string()),
        }
    }
}

fn entry(is_dir: Option<bool>, name: Option<&str>) -> SocketEntry {
    SocketEntry { is_dir, name: name.map(|n| n.to_string()) }
}

#[test]
fn only_readable_directories_with_names_are_probed() {
    let dir = Path::new("/", "/run/vms");
    let entries = vec![
        entry(Some(true), Some("vm-1")),
        entry(Some(false), Some("file")),
        entry(None, Some("gone")),
        entry(Some(true), None),
        entry(Some(true), Some("vm-2")),
    ];
    let found = socket_candidates(&dir, "control.sock", &entries);
    assert_eq!(found.len(), 2);
    assert_eq!(found[0].id, "vm-1");
    assert_eq!(found[0].sock_path.as_str(), "/run/vms/vm-1/control.sock");
    assert_eq!(found[1].id, "vm-2");
    assert_eq!(found[1].sock_path.as_str(), "/run/vms/vm-2/control.sock");
}

#[test]
fn peers_that_answer_are_admitted() {
    let dir = Path::new("/", "/run/vms");
    let entries = vec![
        entry(Some(true), Some("a")),
        entry(Some(true), Some("b")),
        entry(Some(true), Some("c")),
    ];
    let candidates = socket_candidates(&dir, "s", &entries);
    let probes = vec![
        PeerProbe::Peer(41),
        PeerProbe::NotFound,
        PeerProbe::Failed("refused".to_string()),
    ];
    let (admitted, warnings) = admit_peers(&candidates, &probes);
    assert_eq!(admitted.len(), 1);
    assert_eq!(admitted[0].id, "a");
    assert_eq!(admitted[0].pid, 41);
    assert_eq!(admitted[0].sock_path.as_str(), "/run/vms/a/s");
    assert_eq!(warnings.len(), 1);
    assert_eq!(warnings[0].id, "c");
    assert_eq!(warnings[0].error, "refused");
}

#[test]
fn sockets_lie_below_a_relative_directory() {
    let entries = vec![entry(Some(true), Some("vm1"))];
    let found = socket_candidates(&Path::new("/", "run"), "ctl", &entries);
    assert_eq!(found[0].id, "vm1");
    assert_eq!(found[0].sock_path.as_str(), "run/vm1/ctl");
    let (admitted, warnings) = admit_peers(&found, &vec![PeerProbe::Peer(42)]);
    assert_eq!(admitted.len(), 1);
    assert_eq!(admitted[0].pid, 42);
    assert_eq!(admitted[0].sock_path.as_str(), "run/vm1/ctl");
    assert_eq!(warnings.len(), 0);
}

#[test]
fn sockets_are_placed_below_the_root_once() {
    let entries = vec![entry(Some(true), Some("vm1"))];
    let found = socket_candidates(&Path::new("/mnt", "/run/vms"), "ctl", &entries);
    assert_eq!(found[0].sock_path.as_str(), "/mnt/run/vms/vm1/ctl");
}
