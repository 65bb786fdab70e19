use vstd::prelude::*;
use vstd::string::StringSliceAdditionalSpecFns;
use crate::bytes::{bytes_eq, append_bytes};
use crate::path::{
    lit, views, normalized, normalize_path, script_dir, script_dir_of, exec_root_of,
    derive_exec_root_from_path, copy_all,
};
use crate::shebang::{shebang_of, shebang_words, ShebangError};

verus! {

/// How many `#!` interpreters may be chained before a launch gives up.
pub const MAX_SCRIPT_INTERPRETER_DEPTH: usize = 4;

/// Why a program could not be prepared for launch.
#[derive(Debug)]
pub enum LaunchError {
    /// The argument vector is empty.
    EmptyArgv,
    /// Too many `#!` interpreters were chained.
    RecursionLimit,
    /// The file at this path could not be read.
    ReadFailed(Vec<u8>),
    /// The `#!` line of the script at this path is not valid UTF-8.
    InvalidShebang(Vec<u8>),
    /// The `#!` line of the script at this path names no interpreter.
    EmptyShebang(Vec<u8>),
    /// No file was found for this interpreter.
    InterpreterNotFound(Vec<u8>),
    /// An event arrived that the launch was not waiting for.
    UnexpectedEvent,
}

/// A program ready to be loaded: its image, arguments, path and runtime root.
#[derive(Debug)]
pub struct PreparedProgram {
    pub image: Vec<u8>,
    pub argv: Vec<Vec<u8>>,
    pub path: Vec<u8>,
    pub exec_root: Vec<u8>,
}

/// A way to run a script: if `check` is a regular file, the script runs
/// under `argv` followed by the script's own arguments.
#[derive(Debug)]
pub struct InterpreterChoice {
    pub check: Vec<u8>,
    pub argv: Vec<Vec<u8>>,
}

/// What a launch waits for.
#[derive(Debug)]
pub enum LaunchStage {
    /// The current working directory.
    AwaitCwd,
    /// The contents of the file at `path`.
    AwaitImage,
    /// Whether `choices[next].check` is a regular file; `rest` follows the
    /// interpreter's own arguments, `raw` is the interpreter the script named.
    AwaitInterpreter {
        choices: Vec<InterpreterChoice>,
        next: usize,
        rest: Vec<Vec<u8>>,
        raw: Vec<u8>,
    },
    /// Nothing: the launch has ended.
    Finished,
}

/// What the caller must do next for a launch.
#[derive(Debug)]
pub enum LaunchAction {
    /// Find the current working directory.
    ReadCurrentDir,
    /// Read the whole file at this path.
    ReadFile(Vec<u8>),
    /// Find out whether this path is a regular file.
    CheckIsFile(Vec<u8>),
    /// Load and run this program.
    Ready(PreparedProgram),
    /// Give up.
    Failed(LaunchError),
}

/// What the caller found out.
#[derive(Debug)]
pub enum LaunchEvent {
    /// The current working directory, if it could be found.
    CurrentDir(Option<Vec<u8>>),
    /// The file's contents, if it could be read.
    Image(Option<Vec<u8>>),
    /// Whether the path is a regular file.
    IsFile(bool),
}

/// A program launch in progress: resolving the program, following `#!`
/// lines to their interpreters, until a binary image is found.
#[derive(Debug)]
pub struct ProgramLaunch {
    pub cwd: Vec<u8>,
    pub argv: Vec<Vec<u8>>,
    pub depth: usize,
    pub path: Vec<u8>,
    pub stage: LaunchStage,
}

/// The view of an interpreter choice.
pub open spec fn choice_view(c: InterpreterChoice) -> (Seq<u8>, Seq<Seq<u8>>) {
    (c.check@, views(c.argv@))
}

/// The views of interpreter choices.
pub open spec fn choices_view(v: Seq<InterpreterChoice>) -> Seq<(Seq<u8>, Seq<Seq<u8>>)> {
    v.map_values(|c: InterpreterChoice| choice_view(c))
}

/// The `busybox` binaries that may run a script at `script`, most fitting
/// first.
pub open spec fn busybox_candidates_of(script: Seq<u8>) -> Seq<Seq<u8>> {
    let tail = seq![lit("/musl/busybox"), lit("/glibc/busybox")];
    if exec_root_of(script) == lit("/musl") {
        seq![lit("/musl/busybox")] + tail
    } else if exec_root_of(script) == lit("/glibc") {
        seq![lit("/glibc/busybox")] + tail
    } else {
        tail
    }
}

/// The ways to run the script at `script` whose `#!` line names `raw`, in
/// the order in which they are tried: `raw` resolved against the script's
/// directory, then, for the usual shells, a `busybox` binary.
pub open spec fn interpreter_choices_of(script: Seq<u8>, raw: Seq<u8>) -> Seq<
    (Seq<u8>, Seq<Seq<u8>>),
> {
    let resolved = normalized(script_dir_of(script), raw);
    let first = seq![(resolved, seq![resolved])];
    if raw == lit("/bin/sh") || raw == lit("/busybox") {
        first + busybox_candidates_of(script).map_values(|c: Seq<u8>| (c, seq![c, lit("sh")]))
    } else if raw == lit("/bin/busybox") {
        first + busybox_candidates_of(script).map_values(|c: Seq<u8>| (c, seq![c]))
    } else {
        first
    }
}

/// The `busybox` binaries that may run the script at `script_path`.
pub fn busybox_candidates(script_path: &[u8]) -> (r: Vec<Vec<u8>>)
    ensures
        views(r@) == busybox_candidates_of(script_path@),
{
    let root = derive_exec_root_from_path(script_path);
    let musl_bb = "/musl/busybox".as_bytes();
    let glibc_bb = "/glibc/busybox".as_bytes();
    let mut out: Vec<Vec<u8>> = Vec::new();
    if bytes_eq(root.as_slice(), "/musl".as_bytes()) {
        out.push(copy_all(musl_bb));
    } else if bytes_eq(root.as_slice(), "/glibc".as_bytes()) {
        out.push(copy_all(glibc_bb));
    }
    out.push(copy_all(musl_bb));
    out.push(copy_all(glibc_bb));
    assert(views(out@) =~= busybox_candidates_of(script_path@));
    out
}

/// The ways to run the script at `script_path` whose `#!` line names `raw`.
pub fn interpreter_choices(script_path: &[u8], raw: &[u8]) -> (r: Vec<InterpreterChoice>)
    ensures
        choices_view(r@) == interpreter_choices_of(script_path@, raw@),
        r@.len() >= 1,
{
    let dir = script_dir(script_path);
    let resolved = normalize_path(dir.as_slice(), raw).unwrap();
    let mut out: Vec<InterpreterChoice> = Vec::new();
    let mut first_argv: Vec<Vec<u8>> = Vec::new();
    first_argv.push(copy_all(resolved.as_slice()));
    assert(views(first_argv@) =~= seq![resolved@]);
    out.push(InterpreterChoice { check: resolved, argv: first_argv });
    let ghost first = choices_view(out@);
    let is_shell = bytes_eq(raw, "/bin/sh".as_bytes()) || bytes_eq(raw, "/busybox".as_bytes());
    let is_busybox = bytes_eq(raw, "/bin/busybox".as_bytes());
    if is_shell || is_busybox {
        let cands = busybox_candidates(script_path);
        let ghost cv = views(cands@);
        let ghost f: spec_fn(Seq<u8>) -> (Seq<u8>, Seq<Seq<u8>>) = if is_shell {
            |c: Seq<u8>| (c, seq![c, lit("sh")])
        } else {
            |c: Seq<u8>| (c, seq![c])
        };
        let mut i: usize = 0;
        while i < cands.len()
            invariant
                i <= cands@.len(),
                cv == views(cands@),
                choices_view(out@) == first + cv.subrange(0, i as int).map_values(f),
                f == (if is_shell {
                    |c: Seq<u8>| (c, seq![c, lit("sh")])
                } else {
                    |c: Seq<u8>| (c, seq![c])
                }),
            decreases cands@.len() - i,
        {
            let c = copy_all(cands[i].as_slice());
            let mut argv: Vec<Vec<u8>> = Vec::new();
            argv.push(copy_all(c.as_slice()));
            if is_shell {
                argv.push(copy_all("sh".as_bytes()));
            }
            let ghost before = choices_view(out@);
            let ghost entry = (c@, views(argv@));
            assert(views(argv@) =~= f(c@).1);
            out.push(InterpreterChoice { check: c, argv });
            assert(choices_view(out@) =~= before.push(entry));
            assert(cv.subrange(0, i + 1).map_values(f) =~= cv.subrange(0, i as int).map_values(
                f,
            ).push(f(cv[i as int])));
            i = i + 1;
        }
        assert(cv.subrange(0, cv.len() as int) =~= cv);
    }
    assert(choices_view(out@) =~= interpreter_choices_of(script_path@, raw@));
    out
}

/// The arguments of the program that runs a script: the interpreter's
/// `argv`, the words after it on the `#!` line, the script's path, and the
/// arguments the script was given after its name.
pub open spec fn script_argv_of(
    interp: Seq<Seq<u8>>,
    line_args: Seq<Seq<u8>>,
    script: Seq<u8>,
    argv: Seq<Seq<u8>>,
) -> Seq<Seq<u8>> {
    interp + line_args + seq![script] + argv.drop_first()
}

/// A copy of a vector of byte strings.
pub fn copy_argv(v: &[Vec<u8>]) -> (r: Vec<Vec<u8>>)
    ensures
        views(r@) == views(v@),
{
    let mut out: Vec<Vec<u8>> = Vec::new();
    let mut i: usize = 0;
    while i < v.len()
        invariant
            i <= v@.len(),
            views(out@) == views(v@).subrange(0, i as int),
        decreases v@.len() - i,
    {
        let ghost before = views(out@);
        out.push(copy_all(v[i].as_slice()));
        assert(views(out@) =~= before.push(v@[i as int]@));
        assert(views(v@).subrange(0, i + 1) =~= views(v@).subrange(0, i as int).push(
            v@[i as int]@,
        ));
        i = i + 1;
    }
    assert(views(v@).subrange(0, v@.len() as int) =~= views(v@));
    out
}

/// Appends copies of `v[from..]` to `out`.
fn extend_argv(out: &mut Vec<Vec<u8>>, v: &[Vec<u8>], from: usize)
    requires
        from <= v@.len(),
    ensures
        views(final(out)@) == views(old(out)@) + views(v@).subrange(from as int, v@.len() as int),
{
    let ghost start = views(out@);
    let mut i: usize = from;
    while i < v.len()
        invariant
            from <= i <= v@.len(),
            views(out@) == start + views(v@).subrange(from as int, i as int),
        decreases v@.len() - i,
    {
        let ghost before = views(out@);
        out.push(copy_all(v[i].as_slice()));
        assert(views(out@) =~= before.push(v@[i as int]@));
        assert(views(v@).subrange(from as int, i + 1) =~= views(v@).subrange(
            from as int,
            i as int,
        ).push(v@[i as int]@));
        i = i + 1;
    }
}

/// Whether a launch is in a state that `step` accepts.
pub open spec fn launch_wf(l: ProgramLaunch) -> bool {
    match l.stage {
        LaunchStage::AwaitInterpreter { choices, next, .. } => next < choices@.len()
            && l.depth <= MAX_SCRIPT_INTERPRETER_DEPTH && l.argv@.len() > 0,
        LaunchStage::AwaitImage => l.depth <= MAX_SCRIPT_INTERPRETER_DEPTH && l.argv@.len() > 0,
        _ => true,
    }
}

/// `r` is the launch of `argv` in the directory `cwd` after `depth`
/// interpreters, with its first action: an empty `argv` or a chain of too
/// many interpreters fails, otherwise the program's path is resolved against
/// `cwd` and its file is read.
pub open spec fn starts(
    r: (ProgramLaunch, LaunchAction),
    cwd: Seq<u8>,
    argv: Seq<Seq<u8>>,
    depth: int,
) -> bool {
    &&& r.0.cwd@ == cwd
    &&& views(r.0.argv@) == argv
    &&& r.0.depth == depth
    &&& launch_wf(r.0)
    &&& if argv.len() == 0 {
        r.0.stage is Finished && r.1 matches LaunchAction::Failed(LaunchError::EmptyArgv)
    } else if depth > MAX_SCRIPT_INTERPRETER_DEPTH {
        r.0.stage is Finished && r.1 matches LaunchAction::Failed(LaunchError::RecursionLimit)
    } else {
        &&& r.0.stage is AwaitImage
        &&& r.0.path@ == normalized(cwd, argv[0])
        &&& r.1 matches LaunchAction::ReadFile(p) && p@ == r.0.path@
    }
}

/// Starts the launch of `argv` in `cwd` after `depth` interpreters.
fn prepare(cwd: Vec<u8>, argv: Vec<Vec<u8>>, depth: usize) -> (r: (ProgramLaunch, LaunchAction))
    ensures
        starts(r, cwd@, views(argv@), depth as int),
{
    if argv.len() == 0 {
        let l = ProgramLaunch { cwd, argv, depth, path: Vec::new(), stage: LaunchStage::Finished };
        return (l, LaunchAction::Failed(LaunchError::EmptyArgv));
    }
    if depth > MAX_SCRIPT_INTERPRETER_DEPTH {
        let l = ProgramLaunch { cwd, argv, depth, path: Vec::new(), stage: LaunchStage::Finished };
        return (l, LaunchAction::Failed(LaunchError::RecursionLimit));
    }
    let path = normalize_path(cwd.as_slice(), argv[0].as_slice()).unwrap();
    let read = copy_all(path.as_slice());
    let l = ProgramLaunch { cwd, argv, depth, path, stage: LaunchStage::AwaitImage };
    (l, LaunchAction::ReadFile(read))
}

/// Starts running the program `argv` in the current working directory,
/// which the caller is asked for first.
pub fn run_user_program(argv: Vec<Vec<u8>>) -> (r: (ProgramLaunch, LaunchAction))
    ensures
        views(r.0.argv@) == views(argv@),
        r.0.depth == 0,
        r.0.stage is AwaitCwd,
        r.1 is ReadCurrentDir,
        launch_wf(r.0),
{
    let l = ProgramLaunch {
        cwd: Vec::new(),
        argv,
        depth: 0,
        path: Vec::new(),
        stage: LaunchStage::AwaitCwd,
    };
    (l, LaunchAction::ReadCurrentDir)
}

/// Starts running the program `argv` in the directory `cwd`.
pub fn run_user_program_in(cwd: Vec<u8>, argv: Vec<Vec<u8>>) -> (r: (ProgramLaunch, LaunchAction))
    ensures
        starts(r, cwd@, views(argv@), 0),
{
    prepare(cwd, argv, 0)
}


/// The path of `p`, or `/` when there is none.
pub open spec fn cwd_or_root(d: Option<Vec<u8>>) -> Seq<u8> {
    match d {
        Some(v) => v@,
        None => lit("/"),
    }
}

impl ProgramLaunch {
    /// Advances the launch with what the caller found out about its last
    /// action.
    pub fn step(self, event: LaunchEvent) -> (r: (ProgramLaunch, LaunchAction))
        requires
            launch_wf(self),
        ensures
            launch_wf(r.0),
            match (self.stage, event) {
                (LaunchStage::AwaitCwd, LaunchEvent::CurrentDir(d)) => starts(
                    r,
                    cwd_or_root(d),
                    views(self.argv@),
                    0,
                ),
                (LaunchStage::AwaitImage, LaunchEvent::Image(None)) => {
                    &&& r.0.stage is Finished
                    &&& r.1 matches LaunchAction::Failed(LaunchError::ReadFailed(p)) && p@
                        == self.path@
                },
                (LaunchStage::AwaitImage, LaunchEvent::Image(Some(img))) => match shebang_of(
                    img@,
                ) {
                    Ok(None) => {
                        &&& r.0.stage is Finished
                        &&& r.1 matches LaunchAction::Ready(prog) && prog.image@ == img@ && views(
                            prog.argv@,
                        ) == views(self.argv@) && prog.path@ == self.path@ && prog.exec_root@
                            == exec_root_of(self.path@)
                    },
                    Err(ShebangError::Invalid) => {
                        &&& r.0.stage is Finished
                        &&& r.1 matches LaunchAction::Failed(LaunchError::InvalidShebang(p)) && p@
                            == self.path@
                    },
                    Err(ShebangError::Empty) => {
                        &&& r.0.stage is Finished
                        &&& r.1 matches LaunchAction::Failed(LaunchError::EmptyShebang(p)) && p@
                            == self.path@
                    },
                    Ok(Some(words)) => {
                        &&& r.0.cwd@ == self.cwd@
                        &&& views(r.0.argv@) == views(self.argv@)
                        &&& r.0.depth == self.depth
                        &&& r.0.path@ == self.path@
                        &&& r.0.stage matches LaunchStage::AwaitInterpreter {
                            choices,
                            next,
                            rest,
                            raw,
                        } && next == 0 && raw@ == words[0] && choices_view(choices@)
                            == interpreter_choices_of(self.path@, words[0]) && views(rest@)
                            == script_argv_of(
                            Seq::empty(),
                            words.drop_first(),
                            self.path@,
                            views(self.argv@),
                        )
                        &&& r.1 matches LaunchAction::CheckIsFile(c) && c@ == interpreter_choices_of(
                            self.path@,
                            words[0],
                        )[0].0
                    },
                },
                (
                    LaunchStage::AwaitInterpreter { choices, next, rest, raw },
                    LaunchEvent::IsFile(true),
                ) => starts(
                    r,
                    self.cwd@,
                    choices_view(choices@)[next as int].1 + views(rest@),
                    self.depth + 1,
                ),
                (
                    LaunchStage::AwaitInterpreter { choices, next, rest, raw },
                    LaunchEvent::IsFile(false),
                ) => if next + 1 < choices@.len() {
                    &&& r.0.cwd@ == self.cwd@
                    &&& views(r.0.argv@) == views(self.argv@)
                    &&& r.0.depth == self.depth
                    &&& r.0.path@ == self.path@
                    &&& r.0.stage matches LaunchStage::AwaitInterpreter {
                        choices: c2,
                        next: n2,
                        rest: r2,
                        raw: w2,
                    } && n2 == next + 1 && choices_view(c2@) == choices_view(choices@) && views(
                        r2@,
                    ) == views(rest@) && w2@ == raw@
                    &&& r.1 matches LaunchAction::CheckIsFile(c) && c@ == choices_view(
                        choices@,
                    )[next + 1].0
                } else {
                    &&& r.0.stage is Finished
                    &&& r.1 matches LaunchAction::Failed(LaunchError::InterpreterNotFound(w)) && w@
                        == raw@
                },
                _ => r.0.stage is Finished && r.1 matches LaunchAction::Failed(
                    LaunchError::UnexpectedEvent,
                ),
            },
    {
        let ProgramLaunch { cwd, argv, depth, path, stage } = self;
        match (stage, event) {
            (LaunchStage::AwaitCwd, LaunchEvent::CurrentDir(d)) => {
                let dir = match d {
                    Some(v) => v,
                    None => copy_all("/".as_bytes()),
                };
                prepare(dir, argv, 0)
            },
            (LaunchStage::AwaitImage, LaunchEvent::Image(None)) => {
                let failed = copy_all(path.as_slice());
                let l = ProgramLaunch { cwd, argv, depth, path, stage: LaunchStage::Finished };
                (l, LaunchAction::Failed(LaunchError::ReadFailed(failed)))
            },
            (LaunchStage::AwaitImage, LaunchEvent::Image(Some(img))) => {
                match shebang_words(img.as_slice()) {
                    Ok(None) => {
                        let prog = PreparedProgram {
                            image: img,
                            argv: copy_argv(argv.as_slice()),
                            path: copy_all(path.as_slice()),
                            exec_root: derive_exec_root_from_path(path.as_slice()),
                        };
                        let l = ProgramLaunch {
                            cwd,
                            argv,
                            depth,
                            path,
                            stage: LaunchStage::Finished,
                        };
                        (l, LaunchAction::Ready(prog))
                    },
                    Err(ShebangError::Invalid) => {
                        let failed = copy_all(path.as_slice());
                        let l = ProgramLaunch {
                            cwd,
                            argv,
                            depth,
                            path,
                            stage: LaunchStage::Finished,
                        };
                        (l, LaunchAction::Failed(LaunchError::InvalidShebang(failed)))
                    },
                    Err(ShebangError::Empty) => {
                        let failed = copy_all(path.as_slice());
                        let l = ProgramLaunch {
                            cwd,
                            argv,
                            depth,
                            path,
                            stage: LaunchStage::Finished,
                        };
                        (l, LaunchAction::Failed(LaunchError::EmptyShebang(failed)))
                    },
                    Ok(Some(words)) => {
                        let ghost wv = views(words@);
                        let raw = copy_all(words[0].as_slice());
                        let choices = interpreter_choices(path.as_slice(), raw.as_slice());
                        let mut rest: Vec<Vec<u8>> = Vec::new();
                        extend_argv(&mut rest, words.as_slice(), 1);
                        rest.push(copy_all(path.as_slice()));
                        extend_argv(&mut rest, argv.as_slice(), 1);
                        assert(views(rest@) =~= script_argv_of(
                            Seq::empty(),
                            wv.drop_first(),
                            path@,
                            views(argv@),
                        ));
                        let check = copy_all(choices[0].check.as_slice());
                        let l = ProgramLaunch {
                            cwd,
                            argv,
                            depth,
                            path,
                            stage: LaunchStage::AwaitInterpreter { choices, next: 0, rest, raw },
                        };
                        (l, LaunchAction::CheckIsFile(check))
                    },
                }
            },
            (
                LaunchStage::AwaitInterpreter { choices, next, rest, raw },
                LaunchEvent::IsFile(true),
            ) => {
                let mut next_argv = copy_argv(choices[next].argv.as_slice());
                extend_argv(&mut next_argv, rest.as_slice(), 0);
                assert(views(rest@).subrange(0, rest@.len() as int) =~= views(rest@));
                prepare(cwd, next_argv, depth + 1)
            },
            (
                LaunchStage::AwaitInterpreter { choices, next, rest, raw },
                LaunchEvent::IsFile(false),
            ) => {
                if choices.len() - next > 1 {
                    let check = copy_all(choices[next + 1].check.as_slice());
                    let l = ProgramLaunch {
                        cwd,
                        argv,
                        depth,
                        path,
                        stage: LaunchStage::AwaitInterpreter { choices, next: next + 1, rest, raw },
                    };
                    (l, LaunchAction::CheckIsFile(check))
                } else {
                    let l = ProgramLaunch {
                        cwd,
                        argv,
                        depth,
                        path,
                        stage: LaunchStage::Finished,
                    };
                    (l, LaunchAction::Failed(LaunchError::InterpreterNotFound(raw)))
                }
            },
            (stage, _) => {
                let l = ProgramLaunch { cwd, argv, depth, path, stage: LaunchStage::Finished };
                (l, LaunchAction::Failed(LaunchError::UnexpectedEvent))
            },
        }
    }
}

} // verus!
