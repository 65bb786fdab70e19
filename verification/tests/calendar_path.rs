use posix_api::calendar::{civil_from_days, day_of_year, days_since_sunday, is_leap_year};
use posix_api::runtime::runtime_absolute_path_candidates;
use posix_api::path::{derive_exec_root_from_path, dev_shm_host_path, normalize_path, script_dir};
use posix_api::runtime::{join_runtime_root, runtime_root_candidates};

#[test]
fn civil_epoch_and_neighbours() {
    assert_eq!(civil_from_days(0), (1970, 1, 1));
    assert_eq!(civil_from_days(-1), (1969, 12, 31));
    assert_eq!(civil_from_days(11016), (2000, 2, 29));
    assert_eq!(civil_from_days(19723), (2024, 1, 1));
    assert_eq!(civil_from_days(-719468), (0, 3, 1));
}

#[test]
fn civil_round_trips_over_four_centuries() {
    // Each day maps to a valid date one day after the previous one.
    let mut prev = civil_from_days(-146097);
    for d in -146096i64..146097 {
        let cur = civil_from_days(d);
        let (y, m, day) = prev;
        let dim = match m {
            2 => if is_leap_year(y) { 29 } else { 28 },
            4 | 6 | 9 | 11 => 30,
            _ => 31,
        };
        let expected = if day < dim {
            (y, m, day + 1)
        } else if m < 12 {
            (y, m + 1, 1)
        } else {
            (y + 1, 1, 1)
        };
        assert_eq!(cur, expected);
        prev = cur;
    }
}

#[test]
fn weekday_and_year_day() {
    assert_eq!(days_since_sunday(0), 4);
    assert_eq!(days_since_sunday(3), 0);
    assert_eq!(days_since_sunday(-4), 0);
    assert_eq!(day_of_year(2024, 1, 1), 0);
    assert_eq!(day_of_year(2024, 3, 1), 60);
    assert_eq!(day_of_year(2023, 3, 1), 59);
    assert_eq!(day_of_year(2023, 12, 31), 364);
}

#[test]
fn leap_years() {
    assert!(is_leap_year(2000));
    assert!(!is_leap_year(1900));
    assert!(is_leap_year(2024));
    assert!(!is_leap_year(2023));
    assert!(is_leap_year(-4));
    assert!(is_leap_year(0));
    assert!(!is_leap_year(-100));
}

fn norm(base: &str, path: &str) -> String {
    String::from_utf8(normalize_path(base.as_bytes(), path.as_bytes()).unwrap()).unwrap()
}

#[test]
fn normalize_resolves_dots() {
    assert_eq!(norm("/", "a/./b/../c"), "/a/c");
    assert_eq!(norm("/home/user", ".."), "/home");
    assert_eq!(norm("/x/", "y"), "/x/y");
    assert_eq!(norm("/a", "/b//c/"), "/b/c");
    assert_eq!(norm("/", "../.."), "/");
    assert_eq!(norm("/srv", ""), "/srv");
}

#[test]
fn normalize_is_idempotent_on_examples() {
    for (b, p) in [("/a/b", "../c/./d"), ("/", "x//y/.."), ("/q", "/r/../s/")] {
        let once = norm(b, p);
        assert_eq!(norm("/elsewhere", &once), once);
        assert!(once.starts_with('/'));
    }
}

#[test]
fn exec_roots() {
    assert_eq!(derive_exec_root_from_path(b"/musl/busybox"), b"/musl".to_vec());
    assert_eq!(derive_exec_root_from_path(b"/glibc"), b"/glibc".to_vec());
    assert_eq!(derive_exec_root_from_path(b"/tmp/testsuite/musl/x"), b"/musl".to_vec());
    assert_eq!(derive_exec_root_from_path(b"/tmp/testsuite/glibc/y/z"), b"/glibc".to_vec());
    assert_eq!(derive_exec_root_from_path(b"/musly"), b"/".to_vec());
    assert_eq!(derive_exec_root_from_path(b"/bin/sh"), b"/".to_vec());
}

#[test]
fn script_dirs_and_shm_paths() {
    assert_eq!(script_dir(b"/a/b/c.sh"), b"/a/b".to_vec());
    assert_eq!(script_dir(b"/c.sh"), b"/".to_vec());
    assert_eq!(script_dir(b"c.sh"), b"/".to_vec());
    assert_eq!(dev_shm_host_path(b"/dev/shm/foo"), Some(b"/tmp/shm/foo".to_vec()));
    assert_eq!(dev_shm_host_path(b"/dev/shm/../shm/bar"), Some(b"/tmp/shm/bar".to_vec()));
    assert_eq!(dev_shm_host_path(b"/dev/shm/"), None);
    assert_eq!(dev_shm_host_path(b"/tmp/x"), None);
}

#[test]
fn runtime_roots() {
    assert_eq!(join_runtime_root(b"/musl", b"/lib/libc.so"), Some(b"/musl/lib/libc.so".to_vec()));
    assert_eq!(join_runtime_root(b"/", b"/lib/x"), Some(b"/lib/x".to_vec()));
    assert_eq!(
        runtime_root_candidates(b"/", b"/lib/ld-musl-riscv64.so.1"),
        vec![b"/musl".to_vec(), b"/glibc".to_vec()]
    );
    assert_eq!(
        runtime_root_candidates(b"/glibc", b"libc.so.6"),
        vec![b"/glibc".to_vec(), b"/musl".to_vec()]
    );
}

#[test]
fn normalized_paths_are_canonical() {
    assert_eq!(normalize_path(b"/usr/bin", b"../lib/./x"), Some(b"/usr/lib/x".to_vec()));
    assert_eq!(normalize_path(b"/", b"/../.."), Some(b"/".to_vec()));
    assert_eq!(normalize_path(b"/a", b"/b//c/"), normalize_path(b"/x/y", b"/b//c/"));
    let n = normalize_path(b"/a/./b", b"c/../d//e").unwrap();
    assert_eq!(n, b"/a/b/d/e".to_vec());
    assert_eq!(normalize_path(b"/", &n), Some(n.clone()));
}

#[test]
fn absolute_runtime_candidates() {
    let c = runtime_absolute_path_candidates(b"/opt/root", b"/usr/bin/../bin/tool");
    assert_eq!(c, vec![b"/usr/bin/tool".to_vec()]);
    let c = runtime_absolute_path_candidates(b"/opt/root", b"/lib/ld-musl-riscv64.so.1");
    assert_eq!(c[0], b"/lib/ld-musl-riscv64.so.1".to_vec());
    assert!(c.len() > 1);
    for i in 0..c.len() {
        for j in 0..i {
            assert_ne!(c[i], c[j]);
        }
    }
}

#[test]
fn later_candidates_lie_under_a_root() {
    let roots: Vec<Vec<u8>> = vec![b"/musl".to_vec(), b"/glibc".to_vec(), b"/opt/root".to_vec()];
    for path in [&b"/lib/ld-musl-riscv64.so.1"[..], b"/usr/lib/libz.so", b"/usr/lib64/x86_64-linux-gnu/libc.so.6", b"/etc/ld.so.cache"] {
        let c = runtime_absolute_path_candidates(b"/opt/root", path);
        assert!(c.len() > 1);
        for cand in &c[1..] {
            assert!(roots.iter().any(|r| {
                let mut p = r.clone();
                p.push(b'/');
                cand.starts_with(&p)
            }), "{:?}", String::from_utf8_lossy(cand));
        }
    }
}
