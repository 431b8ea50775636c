use pbs_admin::gate::{permitted_roots, GateError, Gatekeeper, Intent};

fn unix_gate() -> Gatekeeper {
    Gatekeeper::new(
        vec![
            "/home/ann/Documents/PBS_Admin/data".to_string(),
            "/tmp/PBS_Admin".to_string(),
        ],
        '/',
    )
}

fn some(s: &str) -> Option<String> {
    Some(s.to_string())
}

#[test]
fn existing_file_below_root_is_read() {
    let g = unix_gate();
    let p = "/home/ann/Documents/PBS_Admin/data/notes.txt";
    assert_eq!(g.validate(p, Intent::Read, some(p), None), Ok(p.to_string()));
}

#[test]
fn new_file_below_root_is_written_under_its_folder() {
    let g = unix_gate();
    let p = "/home/ann/Documents/PBS_Admin/data/new.txt";
    let r = g.validate(p, Intent::Write, None, some("/home/ann/Documents/PBS_Admin/data"));
    assert_eq!(r, Ok("/home/ann/Documents/PBS_Admin/data/new.txt".to_string()));
}

#[test]
fn scratch_root_is_permitted() {
    let g = unix_gate();
    let r = g.validate("/tmp/PBS_Admin/a.m4a", Intent::Write, None, some("/tmp/PBS_Admin/"));
    assert_eq!(r, Ok("/tmp/PBS_Admin/a.m4a".to_string()));
}

#[test]
fn missing_read_target_is_not_found() {
    let g = unix_gate();
    let p = "/home/ann/Documents/PBS_Admin/data/gone.txt";
    let r = g.validate(p, Intent::Read, None, some("/home/ann/Documents/PBS_Admin/data"));
    assert_eq!(r, Err(GateError::NotFound));
}

#[test]
fn traversal_to_existing_file_is_denied() {
    let g = unix_gate();
    let p = "/home/ann/Documents/PBS_Admin/data/../../../../../etc/passwd";
    assert_eq!(g.validate(p, Intent::Read, some("/etc/passwd"), None), Err(GateError::AccessDenied));
    assert_eq!(g.validate(p, Intent::Write, some("/etc/passwd"), None), Err(GateError::AccessDenied));
}

#[test]
fn traversal_to_new_file_is_denied() {
    let g = unix_gate();
    let p = "/tmp/PBS_Admin/../../etc/cron.d/job";
    assert_eq!(g.validate(p, Intent::Write, None, some("/etc/cron.d")), Err(GateError::AccessDenied));
}

#[test]
fn sibling_with_common_prefix_is_denied() {
    let g = Gatekeeper::new(vec!["/data".to_string()], '/');
    assert_eq!(g.validate("/data2/x", Intent::Read, some("/data2/x"), None), Err(GateError::AccessDenied));
    assert_eq!(g.validate("/data/x", Intent::Read, some("/data/x"), None), Ok("/data/x".to_string()));
}

#[test]
fn backslash_name_beside_root_is_denied_where_slash_separates() {
    let g = Gatekeeper::new(vec!["/data".to_string()], '/');
    let r = g.validate("/data/../data\\x", Intent::Read, some("/data\\x"), None);
    assert_eq!(r, Err(GateError::AccessDenied));
    let scratch = unix_gate();
    let w = scratch.validate("/tmp/PBS_Admin\\evil", Intent::Write, None, some("/tmp"));
    assert_eq!(w, Err(GateError::AccessDenied));
}

#[test]
fn root_itself_is_permitted() {
    let g = unix_gate();
    let p = "/tmp/PBS_Admin";
    assert_eq!(g.validate(p, Intent::Read, some(p), None), Ok(p.to_string()));
}

#[test]
fn missing_parent_is_invalid() {
    let g = unix_gate();
    let p = "/home/ann/Documents/PBS_Admin/data/nope/new.txt";
    assert_eq!(g.validate(p, Intent::Write, None, None), Err(GateError::InvalidPath));
}

#[test]
fn path_ending_in_dots_without_lookup_is_invalid() {
    let g = unix_gate();
    let p = "/home/ann/Documents/PBS_Admin/data/x/..";
    let r = g.validate(p, Intent::Write, None, some("/home/ann/Documents/PBS_Admin/data/x"));
    assert_eq!(r, Err(GateError::InvalidPath));
}

#[test]
fn resolved_form_with_dots_is_invalid() {
    let g = unix_gate();
    let c = "/home/ann/Documents/PBS_Admin/data/../../../etc/passwd";
    assert_eq!(g.validate(c, Intent::Read, some(c), None), Err(GateError::InvalidPath));
}

#[test]
fn validation_is_idempotent() {
    let g = unix_gate();
    let p = "/home/ann/Documents/PBS_Admin/data/./notes.txt";
    let first = g
        .validate(p, Intent::Read, some("/home/ann/Documents/PBS_Admin/data/notes.txt"), None)
        .unwrap();
    let again = g.validate(&first, Intent::Read, Some(first.clone()), None).unwrap();
    assert_eq!(first, again);
}

#[test]
fn windows_paths_are_split_at_backslashes() {
    let g = Gatekeeper::new(vec![r"\\?\C:\Users\ann\Documents\PBS_Admin\data".to_string()], '\\');
    let r = g.validate(
        r"C:\Users\ann\Documents\PBS_Admin\data\new.docx",
        Intent::Write,
        None,
        some(r"\\?\C:\Users\ann\Documents\PBS_Admin\data"),
    );
    assert_eq!(r, Ok(r"\\?\C:\Users\ann\Documents\PBS_Admin\data\new.docx".to_string()));
    let denied = g.validate(
        r"C:\Users\ann\Documents\PBS_Admin\data\..\secret.txt",
        Intent::Read,
        some(r"\\?\C:\Users\ann\Documents\PBS_Admin\secret.txt"),
        None,
    );
    assert_eq!(denied, Err(GateError::AccessDenied));
}

#[test]
fn permitted_roots_are_data_and_scratch() {
    let roots = permitted_roots("/home/ann/Documents", "/tmp/", '/');
    assert_eq!(
        roots,
        vec!["/home/ann/Documents/PBS_Admin/data".to_string(), "/tmp/PBS_Admin".to_string()]
    );
}
