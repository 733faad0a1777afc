use skip_if::markers::append_ext;
use skip_if::{Arg, Disk, FileExists, Fingerprint, Guard, Markers, Outcome, Phase, Strategy};

fn disk(output_exists: bool, success: Option<&[u8]>, failure: Option<&[u8]>) -> Disk {
    Disk {
        output_exists,
        success: success.map(|s| s.to_vec()),
        failure: failure.map(|s| s.to_vec()),
    }
}

#[test]
fn marker_paths_flat_and_folder() {
    let m = Markers::default();
    assert_eq!(m.marker_path(true, &b"t".to_vec()), b"t.success".to_vec());
    assert_eq!(m.marker_path(false, &b"out/t".to_vec()), b"out/t.failure".to_vec());
    let f = Markers::default().folder();
    assert_eq!(f.marker_path(true, &b"d".to_vec()), b"d/success".to_vec());
    assert_eq!(f.marker_path(false, &b"d/".to_vec()), b"d/failure".to_vec());
    assert_eq!(f.marker_path(true, &Vec::new()), b"success".to_vec());
}

#[test]
fn marker_content() {
    let m = Markers::default();
    assert_eq!(m.hashes_str(1, 1), b"1\n1".to_vec());
    assert_eq!(m.hashes_str(120, 7), b"120\n7".to_vec());
    assert_eq!(m.hashes_str(0, u64::MAX), format!("0\n{}", u64::MAX).into_bytes());
    let plain = Markers { hashes: false, ..Markers::default() };
    assert_eq!(plain.hashes_str(5, 6), Vec::<u8>::new());
}

#[test]
fn default_and_folder_builders() {
    let m = Markers::default();
    assert!(m.failure_marker && m.success_marker && m.hashes && !m.folder);
    let f = m.folder();
    assert!(f.failure_marker && f.success_marker && f.hashes && f.folder);
}

#[test]
fn success_marker_with_output_skips() {
    let m = Markers::default();
    assert!(m.skip(&disk(true, Some(b"3\n4"), None), 3, 4));
    let no_success = Markers { success_marker: false, ..m };
    assert!(no_success.skip(&disk(true, Some(b"3\n4"), None), 3, 4));
}

#[test]
fn success_marker_without_output_reruns() {
    let m = Markers::default();
    assert!(!m.skip(&disk(false, Some(b"3\n4"), None), 3, 4));
}

#[test]
fn stale_success_marker_reruns() {
    let m = Markers::default();
    assert!(!m.skip(&disk(true, Some(b"3\n4"), None), 3, 5));
    assert!(!m.skip(&disk(true, Some(b"3\n4"), None), 2, 4));
}

#[test]
fn failure_marker_takes_precedence() {
    let m = Markers::default();
    assert!(m.skip(&disk(false, Some(b"3\n4"), Some(b"3\n4")), 3, 4));
    let ignore_failures = Markers { failure_marker: false, ..m };
    assert!(!ignore_failures.skip(&disk(false, None, Some(b"3\n4")), 3, 4));
}

#[test]
fn without_hashes_any_marker_matches() {
    let m = Markers { hashes: false, ..Markers::default() };
    assert!(m.skip(&disk(false, None, Some(b"")), 8, 9));
    assert!(m.skip(&disk(false, None, Some(b"8\n9")), 8, 9));
    assert!(m.skip(&disk(false, None, Some(b"1")), 8, 9));
    assert!(m.skip(&disk(true, Some(b"anything"), None), 8, 9));
    assert!(!m.skip(&disk(false, Some(b"anything"), None), 8, 9));
    assert!(!m.skip(&disk(true, None, None), 8, 9));
}

#[test]
fn without_success_markers_existence_decides() {
    let m = Markers { success_marker: false, ..Markers::default() };
    assert!(m.skip(&disk(true, None, None), 1, 2));
    assert!(!m.skip(&disk(false, Some(b"1\n2"), None), 1, 2));
}

#[test]
fn permanent_failure_writes_failure_marker() {
    let m = Markers::default();
    let out = b"o".to_vec();
    let u = m.callback(Outcome::Failed { retriable: false }, &out, 5, 6).unwrap();
    assert!(!u.success);
    assert!(!u.create_dir);
    assert_eq!(u.write_path, b"o.failure".to_vec());
    assert_eq!(u.content, b"5\n6".to_vec());
    assert_eq!(u.remove_path, b"o.success".to_vec());
    let after = disk(false, None, Some(&u.content));
    assert!(m.skip(&after, 5, 6));
    assert!(!m.skip(&after, 7, 6));
    assert!(!m.skip(&after, 5, 7));
}

#[test]
fn retriable_failure_writes_nothing() {
    let m = Markers::default();
    let out = b"o".to_vec();
    assert!(m.callback(Outcome::Failed { retriable: true }, &out, 5, 6).is_none());
    assert!(!m.skip(&disk(false, None, None), 5, 6));
}

#[test]
fn success_writes_success_marker_and_removes_failure() {
    let m = Markers::default().folder();
    let out = b"d".to_vec();
    let u = m.callback(Outcome::Succeeded, &out, 10, 20).unwrap();
    assert!(u.success);
    assert!(u.create_dir);
    assert_eq!(u.write_path, b"d/success".to_vec());
    assert_eq!(u.content, b"10\n20".to_vec());
    assert_eq!(u.remove_path, b"d/failure".to_vec());
}

#[test]
fn disabled_markers_write_nothing() {
    let out = b"o".to_vec();
    let no_success = Markers { success_marker: false, ..Markers::default() };
    assert!(no_success.callback(Outcome::Succeeded, &out, 1, 1).is_none());
    let no_failure = Markers { failure_marker: false, ..Markers::default() };
    assert!(no_failure.callback(Outcome::Failed { retriable: false }, &out, 1, 1).is_none());
}

#[test]
fn written_marker_reads_back() {
    let m = Markers::default();
    let out = b"t".to_vec();
    let u = m.callback(Outcome::Succeeded, &out, 42, 17).unwrap();
    assert!(m.skip(&disk(true, Some(&u.content), None), 42, 17));
    assert!(!m.skip(&disk(true, Some(&u.content), None), 4, 217));
}

#[test]
fn file_exists_strategy() {
    assert!(FileExists.skip(&disk(true, None, None), 0, 0));
    assert!(!FileExists.skip(&disk(false, Some(b"0\n0"), None), 0, 0));
    assert!(FileExists.markers(&b"f".to_vec()).is_none());
    assert!(FileExists.callback(Outcome::Succeeded, &b"f".to_vec(), 0, 0).is_none());
}

fn arg(name: &str, value: &[u8]) -> Arg {
    Arg { name: name.to_string(), value: value.to_vec() }
}

#[test]
fn fingerprint_is_deterministic_and_skips_excluded() {
    let excluded = vec!["run".to_string()];
    let a = Fingerprint::compute(&vec![arg("id", b"1"), arg("run", b"y")], &b"v1".to_vec(), &excluded);
    let b = Fingerprint::compute(&vec![arg("id", b"1"), arg("run", b"n")], &b"v1".to_vec(), &excluded);
    assert_eq!(a, b);
    let only = Fingerprint::compute(&vec![arg("id", b"1")], &b"v1".to_vec(), &Vec::new());
    assert_eq!(a.args_hash, only.args_hash);
}

#[test]
fn fingerprint_changes_with_arguments_order_and_code() {
    let none = Vec::new();
    let base = Fingerprint::compute(&vec![arg("a", b"x"), arg("b", b"yz")], &b"v1".to_vec(), &none);
    let swapped = Fingerprint::compute(&vec![arg("b", b"yz"), arg("a", b"x")], &b"v1".to_vec(), &none);
    let regrouped = Fingerprint::compute(&vec![arg("a", b"xy"), arg("b", b"z")], &b"v1".to_vec(), &none);
    let bumped = Fingerprint::compute(&vec![arg("a", b"x"), arg("b", b"yz")], &b"v2".to_vec(), &none);
    assert_ne!(base.args_hash, swapped.args_hash);
    assert_ne!(base.args_hash, regrouped.args_hash);
    assert_eq!(base.args_hash, bumped.args_hash);
    assert_ne!(base.code_hash, bumped.code_hash);
}

#[test]
fn guard_phases() {
    let fp = Fingerprint { args_hash: 1, code_hash: 2 };
    let mut g = Guard::new(Markers::default(), b"t".to_vec(), fp);
    assert!(g.phase == Phase::Deciding);
    assert!(!g.decide(&disk(false, None, None)));
    assert!(g.phase == Phase::Running);
    let u = g.record(Outcome::Succeeded).unwrap();
    assert_eq!(u.content, b"1\n2".to_vec());
    assert!(g.phase == Phase::Recorded);

    let mut s = Guard::new(Markers::default(), b"t".to_vec(), fp);
    assert!(s.decide(&disk(true, Some(b"1\n2"), None)));
    assert!(s.phase == Phase::Skipped);
}

#[test]
fn record_result_classifies_errors() {
    let fp = Fingerprint { args_hash: 3, code_hash: 3 };
    let is_retriable = |e: &String| e.contains("retry");
    let mut g = Guard::new(Markers::default(), b"o".to_vec(), fp);
    assert!(!g.decide(&disk(false, None, None)));
    let r: Result<(), String> = Err("retry later".to_string());
    assert!(g.record_result(&r, &is_retriable).is_none());

    let mut g = Guard::new(Markers::default(), b"o".to_vec(), fp);
    assert!(!g.decide(&disk(false, None, None)));
    let r: Result<(), String> = Err("fatal".to_string());
    let u = g.record_result(&r, &is_retriable).unwrap();
    assert!(!u.success);
    assert_eq!(u.write_path, b"o.failure".to_vec());
}

#[test]
fn append_ext_adds_dot_and_extension() {
    assert_eq!(append_ext(&b"success".to_vec(), &b"out/t".to_vec()), b"out/t.success".to_vec());
    assert_eq!(append_ext(&b"gz".to_vec(), &b"a.tar".to_vec()), b"a.tar.gz".to_vec());
}
