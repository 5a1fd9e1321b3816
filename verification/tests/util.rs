use io_thread_controller::util::Path;

/// Relative paths are stored unchanged.
#[test]
fn relative_paths_are_unchanged() {
    let path = Path::new("/", "relative/sock");
    assert_eq!(path.as_str(), "relative/sock");
}

/// Absolute paths stay absolute under the default root.
#[test]
fn absolute_paths_keep_absolute_form_under_default_root() {
    let path = Path::new("/", "/var/run/example.sock");
    assert_eq!(path.as_str(), "/var/run/example.sock");
}

/// A path is built from a string.
#[test]
fn from_str_builds_path() {
    let path = Path::new("/", "tmp/example");
    assert_eq!(path.as_str(), "tmp/example");
}

#[test]
fn absolute_paths_move_below_another_root() {
    assert_eq!(Path::new("/mnt/root", "/var/run/x").as_str(), "/mnt/root/var/run/x");
    assert_eq!(Path::new("/mnt/root/", "/var").as_str(), "/mnt/root/var");
    assert_eq!(Path::new("/mnt/root", "var").as_str(), "var");
}

#[test]
fn absolute_parts_replace_what_they_are_joined_to() {
    let path = Path::new("/", "/run/vms");
    assert_eq!(path.join("vm"), "/run/vms/vm");
    assert_eq!(path.join("/etc"), "/etc");
    assert_eq!(path.clone().as_str(), "/run/vms");
}

#[test]
fn paths_are_placed_as_std_places_them() {
    let cases = [
        "/", "//", "///a", "/.", "/./a", "/a/", "/a/.", "/a//b", "/../x", "/a/./b", "/.hidden",
        "/a/..", "/...", "/a/.b.", "/./././x/././", "a", "a/", "./a", "", ".", "/ä/ö/",
    ];
    for root in ["/", "/mnt", "/mnt/", "mnt", ""] {
        for case in cases {
            let mut expected = std::path::PathBuf::from(case);
            if expected.is_absolute() {
                expected = std::path::PathBuf::from(root).join(expected.strip_prefix("/").unwrap());
            }
            assert_eq!(Path::new(root, case).as_str(), expected.to_str().unwrap());
        }
    }
}

#[test]
fn paths_are_joined_as_std_joins_them() {
    for base in ["/", "/run", "/run/", "run", "a//b/"] {
        let path = Path::new("/", base);
        for part in ["x", "/x", "", "x/y", "./x", ".."] {
            let expected = std::path::PathBuf::from(path.as_str()).join(part);
            assert_eq!(path.join(part), expected.to_str().unwrap());
        }
    }
}
