use std::collections::HashMap;

use posix_api::launch::{
    busybox_candidates, interpreter_choices, run_user_program, run_user_program_in, LaunchAction,
    LaunchError, LaunchEvent, LaunchStage, PreparedProgram, ProgramLaunch,
};

struct Fs {
    cwd: Option<Vec<u8>>,
    files: HashMap<Vec<u8>, Vec<u8>>,
}

impl Fs {
    fn new(cwd: Option<&str>) -> Fs {
        Fs { cwd: cwd.map(|c| c.as_bytes().to_vec()), files: HashMap::new() }
    }

    fn add(&mut self, path: &str, content: &[u8]) {
        self.files.insert(path.as_bytes().to_vec(), content.to_vec());
    }

    /// Drives a launch to its end, recording each path read or checked.
    fn drive(&self, start: (ProgramLaunch, LaunchAction)) -> (Result<PreparedProgram, LaunchError>, Vec<String>) {
        let (mut launch, mut action) = start;
        let mut trace = Vec::new();
        for _ in 0..100 {
            let event = match action {
                LaunchAction::ReadCurrentDir => LaunchEvent::CurrentDir(self.cwd.clone()),
                LaunchAction::ReadFile(p) => {
                    trace.push(format!("read {}", String::from_utf8_lossy(&p)));
                    LaunchEvent::Image(self.files.get(&p).cloned())
                }
                LaunchAction::CheckIsFile(p) => {
                    trace.push(format!("check {}", String::from_utf8_lossy(&p)));
                    LaunchEvent::IsFile(self.files.contains_key(&p))
                }
                LaunchAction::Ready(prog) => return (Ok(prog), trace),
                LaunchAction::Failed(e) => return (Err(e), trace),
            };
            let next = launch.step(event);
            launch = next.0;
            action = next.1;
        }
        panic!("launch did not end");
    }
}

fn argv(v: &[&str]) -> Vec<Vec<u8>> {
    v.iter().map(|s| s.as_bytes().to_vec()).collect()
}

const ELF: &[u8] = b"\x7fELF\x02\x01\x01";

#[test]
fn binary_runs_directly() {
    let mut fs = Fs::new(Some("/musl"));
    fs.add("/musl/hello", ELF);
    let (r, trace) = fs.drive(run_user_program(argv(&["./hello", "x"])));
    let prog = r.unwrap();
    assert_eq!(prog.path, b"/musl/hello".to_vec());
    assert_eq!(prog.argv, argv(&["./hello", "x"]));
    assert_eq!(prog.image, ELF.to_vec());
    assert_eq!(prog.exec_root, b"/musl".to_vec());
    assert_eq!(trace, vec!["read /musl/hello"]);
}

#[test]
fn missing_cwd_means_root() {
    let mut fs = Fs::new(None);
    fs.add("/bin/true", ELF);
    let (r, _) = fs.drive(run_user_program(argv(&["bin/true"])));
    let prog = r.unwrap();
    assert_eq!(prog.path, b"/bin/true".to_vec());
    assert_eq!(prog.exec_root, b"/".to_vec());
}

#[test]
fn script_runs_under_its_interpreter() {
    let mut fs = Fs::new(Some("/"));
    fs.add("/tests/run.sh", b"#!/tests/interp -a\necho\n");
    fs.add("/tests/interp", ELF);
    let (r, trace) = fs.drive(run_user_program_in(b"/".to_vec(), argv(&["/tests/run.sh", "one", "two"])));
    let prog = r.unwrap();
    assert_eq!(prog.path, b"/tests/interp".to_vec());
    assert_eq!(prog.argv, argv(&["/tests/interp", "-a", "/tests/run.sh", "one", "two"]));
    assert_eq!(trace, vec!["read /tests/run.sh", "check /tests/interp", "read /tests/interp"]);
}

#[test]
fn relative_interpreter_is_resolved_against_the_script() {
    let mut fs = Fs::new(Some("/"));
    fs.add("/a/b/s.sh", b"#!../bin/tool\n");
    fs.add("/a/bin/tool", ELF);
    let (r, _) = fs.drive(run_user_program_in(b"/".to_vec(), argv(&["/a/b/s.sh"])));
    let prog = r.unwrap();
    assert_eq!(prog.path, b"/a/bin/tool".to_vec());
    assert_eq!(prog.argv, argv(&["/a/bin/tool", "/a/b/s.sh"]));
}

#[test]
fn shell_scripts_fall_back_to_busybox() {
    let mut fs = Fs::new(Some("/musl"));
    fs.add("/musl/t.sh", b"#!/bin/sh\nexit 0\n");
    fs.add("/musl/busybox", ELF);
    let (r, trace) = fs.drive(run_user_program(argv(&["t.sh", "arg"])));
    let prog = r.unwrap();
    assert_eq!(prog.path, b"/musl/busybox".to_vec());
    assert_eq!(prog.argv, argv(&["/musl/busybox", "sh", "/musl/t.sh", "arg"]));
    assert_eq!(prog.exec_root, b"/musl".to_vec());
    assert_eq!(trace, vec!["read /musl/t.sh", "check /bin/sh", "check /musl/busybox", "read /musl/busybox"]);
}

#[test]
fn busybox_scripts_do_not_add_sh() {
    let mut fs = Fs::new(Some("/"));
    fs.add("/glibc/x.sh", b"#!/bin/busybox ash\n");
    fs.add("/glibc/busybox", ELF);
    let (r, _) = fs.drive(run_user_program(argv(&["/glibc/x.sh"])));
    let prog = r.unwrap();
    assert_eq!(prog.argv, argv(&["/glibc/busybox", "ash", "/glibc/x.sh"]));
}

#[test]
fn interpreter_not_found() {
    let mut fs = Fs::new(Some("/"));
    fs.add("/s.sh", b"#!/no/such\n");
    let (r, _) = fs.drive(run_user_program(argv(&["/s.sh"])));
    assert!(matches!(r, Err(LaunchError::InterpreterNotFound(ref p)) if p == b"/no/such"));
}

#[test]
fn launch_failures() {
    let fs = Fs::new(Some("/"));
    let (r, _) = fs.drive(run_user_program(Vec::new()));
    assert!(matches!(r, Err(LaunchError::EmptyArgv)));
    let (r, _) = fs.drive(run_user_program(argv(&["/nothing"])));
    assert!(matches!(r, Err(LaunchError::ReadFailed(ref p)) if p == b"/nothing"));

    let mut fs = Fs::new(Some("/"));
    fs.add("/bad.sh", b"#!/bin/\xff\n");
    fs.add("/empty.sh", b"#!   \n");
    let (r, _) = fs.drive(run_user_program(argv(&["/bad.sh"])));
    assert!(matches!(r, Err(LaunchError::InvalidShebang(ref p)) if p == b"/bad.sh"));
    let (r, _) = fs.drive(run_user_program(argv(&["/empty.sh"])));
    assert!(matches!(r, Err(LaunchError::EmptyShebang(ref p)) if p == b"/empty.sh"));
}

#[test]
fn interpreter_loops_hit_the_limit() {
    let mut fs = Fs::new(Some("/"));
    fs.add("/loop.sh", b"#!/loop.sh\n");
    let (r, trace) = fs.drive(run_user_program(argv(&["/loop.sh"])));
    assert!(matches!(r, Err(LaunchError::RecursionLimit)));
    assert_eq!(trace.iter().filter(|t| t.starts_with("read")).count(), 5);
}

#[test]
fn unexpected_events_end_the_launch() {
    let (l, _) = run_user_program(argv(&["/x"]));
    let (l, a) = l.step(LaunchEvent::IsFile(true));
    assert!(matches!(a, LaunchAction::Failed(LaunchError::UnexpectedEvent)));
    assert!(matches!(l.stage, LaunchStage::Finished));
}

#[test]
fn busybox_candidate_order() {
    assert_eq!(busybox_candidates(b"/glibc/a.sh"), argv(&["/glibc/busybox", "/musl/busybox", "/glibc/busybox"]));
    assert_eq!(busybox_candidates(b"/musl/a.sh"), argv(&["/musl/busybox", "/musl/busybox", "/glibc/busybox"]));
    assert_eq!(busybox_candidates(b"/a.sh"), argv(&["/musl/busybox", "/glibc/busybox"]));
    let choices = interpreter_choices(b"/x/a.sh", b"/bin/sh");
    assert_eq!(choices.len(), 3);
    assert_eq!(choices[0].check, b"/bin/sh".to_vec());
    assert_eq!(choices[1].argv, argv(&["/musl/busybox", "sh"]));
    let only = interpreter_choices(b"/x/a.sh", b"python");
    assert_eq!(only.len(), 1);
    assert_eq!(only[0].check, b"/x/python".to_vec());
}
