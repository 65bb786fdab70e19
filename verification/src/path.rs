use vstd::prelude::*;
use crate::errno::Errno;
use vstd::string::StringSliceAdditionalSpecFns;
use crate::bytes::{
    append_bytes, bytes_eq, copy_range, has_prefix, last_index_of, lemma_last_index_of_bounds,
    rfind_byte, starts_with, trim_end, trim_end_byte,
};

verus! {

/// The path separator `/`.
pub const SLASH: u8 = 47;

/// The byte `.`.
pub const DOT: u8 = 46;

/// The component stack after one more path component: `.` and empty
/// components change nothing, `..` drops the last component (if any).
pub open spec fn apply_part(stack: Seq<Seq<u8>>, part: Seq<u8>) -> Seq<Seq<u8>> {
    if part.len() == 0 || part == seq![DOT] {
        stack
    } else if part == seq![DOT, DOT] {
        if stack.len() > 0 { stack.drop_last() } else { stack }
    } else {
        stack.push(part)
    }
}

/// The component stack after reading the rest `s` of a path, from the stack
/// `stack` and the partly read component `cur`.
pub open spec fn resolve_from(s: Seq<u8>, stack: Seq<Seq<u8>>, cur: Seq<u8>) -> Seq<Seq<u8>>
    decreases s.len(),
{
    if s.len() == 0 {
        apply_part(stack, cur)
    } else if s[0] == SLASH {
        resolve_from(s.drop_first(), apply_part(stack, cur), seq![])
    } else {
        resolve_from(s.drop_first(), stack, cur.push(s[0]))
    }
}

/// The components of path `s` with `.`, `..` and empty ones resolved.
pub open spec fn resolve(s: Seq<u8>) -> Seq<Seq<u8>> {
    resolve_from(s, seq![], seq![])
}

/// The components joined with `/` between them.
pub open spec fn join_parts(parts: Seq<Seq<u8>>) -> Seq<u8>
    decreases parts.len(),
{
    if parts.len() == 0 {
        seq![]
    } else if parts.len() == 1 {
        parts[0]
    } else {
        join_parts(parts.drop_last()) + seq![SLASH] + parts.last()
    }
}

/// The path that `path` names when it is read relative to the directory `base`.
pub open spec fn joined_input(base: Seq<u8>, path: Seq<u8>) -> Seq<u8> {
    if path.len() > 0 && path[0] == SLASH {
        path
    } else if base == seq![SLASH] {
        seq![SLASH] + path
    } else {
        trim_end(base, SLASH) + seq![SLASH] + path
    }
}

/// The absolute, normalized form of `path` relative to `base`.
pub open spec fn normalized(base: Seq<u8>, path: Seq<u8>) -> Seq<u8> {
    seq![SLASH] + join_parts(resolve(joined_input(base, path)))
}

/// Resolves `path` against the directory `base` into an absolute path with
/// no `.`, `..` or empty components.
pub fn normalize_path(base: &[u8], path: &[u8]) -> (r: Option<Vec<u8>>)
    ensures
        r matches Some(v) && v@ == normalized(base@, path@),
{
    let input: Vec<u8> = if path.len() > 0 && path[0] == SLASH {
        let v = copy_range(path, 0, path.len());
        assert(path@.subrange(0, path@.len() as int) =~= path@);
        v
    } else if base.len() == 1 && base[0] == SLASH {
        let mut v: Vec<u8> = Vec::new();
        v.push(SLASH);
        append_bytes(&mut v, path);
        assert(base@ =~= seq![SLASH]);
        assert(v@ =~= seq![SLASH] + path@);
        v
    } else {
        assert(base@ != seq![SLASH]) by {
            if base@ == seq![SLASH] { assert(base@[0] == SLASH); }
        }
        let mut v = trim_end_byte(base, SLASH);
        v.push(SLASH);
        append_bytes(&mut v, path);
        v
    };
    proof {
        assert(path@.subrange(0, path@.len() as int) =~= path@);
        assert(input@ =~= joined_input(base@, path@));
    }
    let mut stack: Vec<Vec<u8>> = Vec::new();
    let mut cur: Vec<u8> = Vec::new();
    let mut i: usize = 0;
    assert(input@.subrange(0, input@.len() as int) =~= input@);
    assert(views(stack@) =~= seq![]);
    assert(cur@ =~= seq![]);
    while i < input.len()
        invariant
            i <= input.len(),
            resolve(input@) == resolve_from(input@.subrange(i as int, input@.len() as int), views(stack@), cur@),
        decreases input.len() - i,
    {
        let ghost rest = input@.subrange(i as int, input@.len() as int);
        assert(rest.drop_first() =~= input@.subrange(i + 1, input@.len() as int));
        let b = input[i];
        if b == SLASH {
            push_part(&mut stack, cur);
            cur = Vec::new();
            assert(cur@ =~= seq![]);
        } else {
            cur.push(b);
        }
        i += 1;
    }
    push_part(&mut stack, cur);
    let ghost parts = views(stack@);
    assert(parts == resolve(input@));
    let mut out: Vec<u8> = Vec::new();
    out.push(SLASH);
    let mut k: usize = 0;
    while k < stack.len()
        invariant
            k <= stack.len(),
            parts == views(stack@),
            out@ == seq![SLASH] + join_parts(parts.subrange(0, k as int)),
        decreases stack.len() - k,
    {
        let ghost before = out@;
        if k > 0 {
            out.push(SLASH);
        }
        append_bytes(&mut out, stack[k].as_slice());
        proof {
            let pre = parts.subrange(0, k as int);
            let post = parts.subrange(0, k + 1);
            assert(post.drop_last() =~= pre);
                if k == 0 {
                assert(out@ =~= seq![SLASH] + join_parts(post));
            } else {
                assert(out@ =~= seq![SLASH] + join_parts(post));
            }
        }
        k += 1;
    }
    assert(parts.subrange(0, stack.len() as int) =~= parts);
    Some(out)
}

/// The byte strings held by a vector of byte vectors.
pub open spec fn views(v: Seq<Vec<u8>>) -> Seq<Seq<u8>> {
    v.map_values(|x: Vec<u8>| x@)
}

/// Applies one path component to the component stack.
fn push_part(stack: &mut Vec<Vec<u8>>, part: Vec<u8>)
    ensures
        views(final(stack)@) == apply_part(views(old(stack)@), part@),
{
    let ghost s0 = views(stack@);
    if part.len() == 0 || (part.len() == 1 && part[0] == DOT) {
        assert(part@.len() == 0 || part@ =~= seq![DOT]);
        return;
    }
    if part.len() == 2 && part[0] == DOT && part[1] == DOT {
        assert(part@ =~= seq![DOT, DOT]);
        if stack.len() > 0 {
            stack.pop();
            assert(views(stack@) =~= s0.drop_last());
        }
        return;
    }
    assert(part@ != seq![DOT]) by {
        if part@ == seq![DOT] { assert(part@[0] == DOT); }
    }
    assert(part@ != seq![DOT, DOT]) by {
        if part@ == seq![DOT, DOT] { assert(part@[0] == DOT && part@[1] == DOT); }
    }
    let ghost pv = part@;
    stack.push(part);
    assert(views(stack@) =~= s0.push(pv));
}

} // verus!
verus! {

/// The bytes of a string literal.
pub open spec fn lit(s: &str) -> Seq<u8> {
    s.spec_bytes()
}

/// The last component of `s`: what follows its last `/`, or all of it.
pub open spec fn last_component(s: Seq<u8>) -> Seq<u8> {
    match last_index_of(s, SLASH) {
        Some(i) => s.subrange(i + 1, s.len() as int),
        None => s,
    }
}

/// `p` is `root` itself or lies below the directory `root`.
pub open spec fn at_or_under(p: Seq<u8>, root: Seq<u8>) -> bool {
    p == root || has_prefix(p, root + seq![SLASH])
}

/// The runtime root (`/musl`, `/glibc` or `/`) that an executable path selects.
pub open spec fn exec_root_of(path: Seq<u8>) -> Seq<u8> {
    if at_or_under(path, lit("/musl")) {
        lit("/musl")
    } else if at_or_under(path, lit("/glibc")) {
        lit("/glibc")
    } else if has_prefix(path, lit("/tmp/testsuite")) {
        let rest = path.subrange(lit("/tmp/testsuite").len() as int, path.len() as int);
        if at_or_under(rest, lit("/musl")) {
            lit("/musl")
        } else if at_or_under(rest, lit("/glibc")) {
            lit("/glibc")
        } else {
            lit("/")
        }
    } else {
        lit("/")
    }
}

/// `p` is `root` or starts with `root` followed by `/`.
fn is_at_or_under(p: &[u8], root: &[u8]) -> (r: bool)
    ensures
        r == at_or_under(p@, root@),
{
    if bytes_eq(p, root) {
        return true;
    }
    let mut with_sep = copy_range(root, 0, root.len());
    with_sep.push(SLASH);
    assert(root@.subrange(0, root@.len() as int) =~= root@);
    assert(with_sep@ =~= root@ + seq![SLASH]);
    starts_with(p, with_sep.as_slice())
}

/// The runtime root that the executable at `path` belongs to.
pub fn derive_exec_root_from_path(path: &[u8]) -> (r: Vec<u8>)
    ensures
        r@ == exec_root_of(path@),
{
    let musl = "/musl".as_bytes();
    let glibc = "/glibc".as_bytes();
    let stage = "/tmp/testsuite".as_bytes();
    if is_at_or_under(path, musl) {
        return copy_all(musl);
    }
    if is_at_or_under(path, glibc) {
        return copy_all(glibc);
    }
    if starts_with(path, stage) {
        let rest = copy_range(path, stage.len(), path.len());
        if is_at_or_under(rest.as_slice(), musl) {
            return copy_all(musl);
        }
        if is_at_or_under(rest.as_slice(), glibc) {
            return copy_all(glibc);
        }
        assert(exec_root_of(path@) == lit("/"));
    } else {
        assert(!has_prefix(path@, lit("/tmp/testsuite")));
        assert(exec_root_of(path@) == lit("/"));
    }
    copy_all("/".as_bytes())
}

/// A copy of `s`.
pub fn copy_all(s: &[u8]) -> (r: Vec<u8>)
    ensures
        r@ == s@,
{
    let r = copy_range(s, 0, s.len());
    assert(s@.subrange(0, s@.len() as int) =~= s@);
    r
}

/// The directory that holds the script at `path`.
pub open spec fn script_dir_of(path: Seq<u8>) -> Seq<u8> {
    match last_index_of(path, SLASH) {
        Some(i) => if i == 0 { lit("/") } else { path.subrange(0, i) },
        None => lit("/"),
    }
}

/// The directory part of `path`, `/` when there is none.
pub fn script_dir(path: &[u8]) -> (r: Vec<u8>)
    ensures
        r@ == script_dir_of(path@),
{
    match rfind_byte(path, SLASH) {
        Some(0) | None => copy_all("/".as_bytes()),
        Some(idx) => {
            proof { lemma_last_index_of_bounds(path@, SLASH); }
            copy_range(path, 0, idx)
        },
    }
}

/// The host path that a `/dev/shm/...` path is stored under.
pub open spec fn dev_shm_of(path: Seq<u8>) -> Option<Seq<u8>> {
    let n = normalized(lit("/"), path);
    let pre = lit("/dev/shm/");
    if has_prefix(n, pre) && n.len() > pre.len() {
        Some(lit("/tmp/shm/") + n.subrange(pre.len() as int, n.len() as int))
    } else {
        None
    }
}

/// Maps a path under `/dev/shm/` to the host directory that backs it.
pub fn dev_shm_host_path(path: &[u8]) -> (r: Option<Vec<u8>>)
    ensures
        r matches Some(v) ==> dev_shm_of(path@) == Some(v@),
        r is None ==> dev_shm_of(path@) is None,
{
    let n = normalize_path("/".as_bytes(), path).unwrap();
    let pre = "/dev/shm/".as_bytes();
    if !starts_with(n.as_slice(), pre) {
        return None;
    }
    if n.len() == pre.len() {
        return None;
    }
    let mut out = copy_all("/tmp/shm/".as_bytes());
    let rel = copy_range(n.as_slice(), pre.len(), n.len());
    append_bytes(&mut out, rel.as_slice());
    Some(out)
}


/// A component that a normalized path can hold: not empty, not `.` or `..`,
/// and without `/`.
pub open spec fn clean_part(p: Seq<u8>) -> bool {
    p.len() > 0 && p != seq![DOT] && p != seq![DOT, DOT] && !p.contains(SLASH)
}

/// Every component is clean.
pub open spec fn all_clean(parts: Seq<Seq<u8>>) -> bool {
    forall|i: int| 0 <= i < parts.len() ==> clean_part(#[trigger] parts[i])
}

/// The components, each preceded by `/`.
pub open spec fn join_front(parts: Seq<Seq<u8>>) -> Seq<u8>
    decreases parts.len(),
{
    if parts.len() == 0 {
        seq![]
    } else {
        seq![SLASH] + parts[0] + join_front(parts.drop_first())
    }
}

proof fn lemma_resolve_clean(s: Seq<u8>, stack: Seq<Seq<u8>>, cur: Seq<u8>)
    requires
        all_clean(stack),
        !cur.contains(SLASH),
    ensures
        all_clean(resolve_from(s, stack, cur)),
    decreases s.len(),
{
    let next = apply_part(stack, cur);
    assert(all_clean(next)) by {
        if cur.len() == 0 || cur == seq![DOT] {
        } else if cur == seq![DOT, DOT] {
            if stack.len() > 0 {
                assert forall|i: int| 0 <= i < next.len() implies clean_part(#[trigger] next[i]) by {
                    assert(next[i] == stack[i]);
                }
            }
        } else {
            assert forall|i: int| 0 <= i < next.len() implies clean_part(#[trigger] next[i]) by {
                if i < stack.len() {
                    assert(next[i] == stack[i]);
                }
            }
        }
    }
    if s.len() > 0 {
        if s[0] == SLASH {
            assert(!Seq::<u8>::empty().contains(SLASH));
            lemma_resolve_clean(s.drop_first(), next, seq![]);
        } else {
            assert(!cur.push(s[0]).contains(SLASH)) by {
                if cur.push(s[0]).contains(SLASH) {
                    let k = choose|k: int| 0 <= k < cur.push(s[0]).len() && cur.push(s[0])[k] == SLASH;
                    if k < cur.len() {
                        assert(cur[k] == SLASH);
                    }
                }
            }
            lemma_resolve_clean(s.drop_first(), stack, cur.push(s[0]));
        }
    }
}

/// A word without `/` at the front of what is left to read joins the
/// component being read.
pub proof fn lemma_resolve_word(q: Seq<u8>, rest: Seq<u8>, stack: Seq<Seq<u8>>, cur: Seq<u8>)
    requires
        !q.contains(SLASH),
    ensures
        resolve_from(q + rest, stack, cur) == resolve_from(rest, stack, cur + q),
    decreases q.len(),
{
    if q.len() == 0 {
        assert(q + rest =~= rest);
        assert(cur + q =~= cur);
    } else {
        assert((q + rest)[0] == q[0]);
        assert(q[0] != SLASH) by {
            if q[0] == SLASH {
                assert(q.contains(SLASH));
            }
        }
        assert((q + rest).drop_first() =~= q.drop_first() + rest);
        assert(!q.drop_first().contains(SLASH)) by {
            if q.drop_first().contains(SLASH) {
                let k = choose|k: int| 0 <= k < q.drop_first().len() && q.drop_first()[k] == SLASH;
                assert(q[k + 1] == SLASH);
            }
        }
        lemma_resolve_word(q.drop_first(), rest, stack, cur.push(q[0]));
        assert(cur.push(q[0]) + q.drop_first() =~= cur + q);
    }
}

proof fn lemma_resolve_join_front(parts: Seq<Seq<u8>>, stack: Seq<Seq<u8>>, cur: Seq<u8>)
    requires
        all_clean(parts),
        !cur.contains(SLASH),
    ensures
        resolve_from(join_front(parts), stack, cur) == apply_part(stack, cur) + parts,
    decreases parts.len(),
{
    if parts.len() == 0 {
        assert(apply_part(stack, cur) + parts =~= apply_part(stack, cur));
    } else {
        let p0 = parts[0];
        let rest = parts.drop_first();
        assert(clean_part(p0));
        assert(all_clean(rest)) by {
            assert forall|i: int| 0 <= i < rest.len() implies clean_part(#[trigger] rest[i]) by {
                assert(rest[i] == parts[i + 1]);
            }
        }
        let s = join_front(parts);
        assert(s =~= seq![SLASH] + (p0 + join_front(rest)));
        assert(s[0] == SLASH);
        assert(s.drop_first() =~= p0 + join_front(rest));
        let st = apply_part(stack, cur);
        lemma_resolve_word(p0, join_front(rest), st, seq![]);
        assert(Seq::<u8>::empty() + p0 =~= p0);
        lemma_resolve_join_front(rest, st, p0);
        assert(apply_part(st, p0) == st.push(p0));
        assert(st.push(p0) + rest =~= st + parts);
    }
}

proof fn lemma_join_front_last(parts: Seq<Seq<u8>>)
    requires
        parts.len() > 0,
    ensures
        join_front(parts) == join_front(parts.drop_last()) + seq![SLASH] + parts.last(),
    decreases parts.len(),
{
    if parts.len() == 1 {
        assert(parts.drop_last() =~= Seq::<Seq<u8>>::empty());
        assert(parts.drop_first() =~= Seq::<Seq<u8>>::empty());
        assert(join_front(parts.drop_first()) =~= Seq::<u8>::empty());
        assert(join_front(parts.drop_last()) =~= Seq::<u8>::empty());
        assert(join_front(parts) =~= seq![SLASH] + parts[0]);
    } else {
        let t = parts.drop_first();
        lemma_join_front_last(t);
        assert(parts.drop_last().drop_first() =~= t.drop_last());
        assert(parts.drop_last()[0] == parts[0]);
        assert(t.last() == parts.last());
        assert(join_front(parts) =~= join_front(parts.drop_last()) + seq![SLASH] + parts.last());
    }
}

proof fn lemma_slash_join(parts: Seq<Seq<u8>>)
    requires
        parts.len() > 0,
    ensures
        seq![SLASH] + join_parts(parts) == join_front(parts),
    decreases parts.len(),
{
    lemma_join_front_last(parts);
    if parts.len() == 1 {
        assert(parts.drop_last() =~= Seq::<Seq<u8>>::empty());
        assert(seq![SLASH] + join_parts(parts) =~= join_front(parts));
    } else {
        lemma_slash_join(parts.drop_last());
        assert(seq![SLASH] + join_parts(parts) =~= join_front(parts));
    }
}

/// The clean components of a normalized path are read back unchanged.
proof fn lemma_resolve_normal(parts: Seq<Seq<u8>>)
    requires
        all_clean(parts),
    ensures
        resolve(seq![SLASH] + join_parts(parts)) == parts,
{
    if parts.len() == 0 {
        assert(seq![SLASH] + join_parts(parts) =~= seq![SLASH]);
        let s = seq![SLASH];
        assert(s.drop_first() =~= Seq::<u8>::empty());
        let e: Seq<Seq<u8>> = Seq::empty();
        let c: Seq<u8> = Seq::empty();
        assert(apply_part(e, c) == e);
        assert(resolve_from(s, e, c) == resolve_from(s.drop_first(), apply_part(e, c), c));
        assert(resolve_from(s.drop_first(), e, c) == apply_part(e, c));
        assert(resolve(s) =~= parts);
    } else {
        lemma_slash_join(parts);
        lemma_resolve_join_front(parts, seq![], seq![]);
        assert(Seq::<Seq<u8>>::empty() + parts =~= parts);
    }
}

/// Normalizing is idempotent: a normalized path is absolute, and normalizing
/// it again against any directory gives it back unchanged.
pub proof fn normalize_idempotent(base: Seq<u8>, path: Seq<u8>, other: Seq<u8>)
    ensures
        normalized(base, path)[0] == SLASH,
        normalized(other, normalized(base, path)) == normalized(base, path),
{
    let n = normalized(base, path);
    let parts = resolve(joined_input(base, path));
    assert(!Seq::<u8>::empty().contains(SLASH));
    lemma_resolve_clean(joined_input(base, path), seq![], seq![]);
    assert(n.len() > 0 && n[0] == SLASH);
    assert(joined_input(other, n) == n);
    lemma_resolve_normal(parts);
}

/// A normalized path is `/` followed by clean components (none empty, `.`
/// or `..`, none holding `/`) joined by `/`; and an absolute path normalizes
/// to the same path against any directory.
pub proof fn normalize_canonical(base: Seq<u8>, path: Seq<u8>, other: Seq<u8>)
    ensures
        all_clean(resolve(joined_input(base, path))),
        normalized(base, path) == seq![SLASH] + join_parts(resolve(joined_input(base, path))),
        path.len() > 0 && path[0] == SLASH ==> normalized(other, path) == normalized(base, path),
{
    assert(!Seq::<u8>::empty().contains(SLASH));
    lemma_resolve_clean(joined_input(base, path), seq![], seq![]);
}

/// `getcwd` into a buffer of `size` bytes: the working directory and a NUL,
/// or `ERANGE` when they do not fit.
pub fn getcwd_bytes(cwd: &[u8], size: u64) -> (r: Result<Vec<u8>, Errno>)
    ensures
        r matches Ok(v) ==> v@ == cwd@.push(0u8) && v@.len() <= size,
        r is Err ==> r == Err::<Vec<u8>, Errno>(Errno::ERANGE) && cwd@.len() + 1 > size,
{
    if cwd.len() as u64 >= size {
        return Err(Errno::ERANGE);
    }
    let mut v = copy_all(cwd);
    v.push(0);
    Ok(v)
}

/// The argument vector `execve` runs with: the strings read from user
/// memory, or the program's path alone when there are none.
pub fn execve_argv(args: Vec<Vec<u8>>, default_argv0: &[u8]) -> (r: Vec<Vec<u8>>)
    ensures
        views(r@) == if args@.len() == 0 { seq![default_argv0@] } else { views(args@) },
{
    if args.len() == 0 {
        let mut v: Vec<Vec<u8>> = Vec::new();
        v.push(copy_all(default_argv0));
        assert(views(v@) =~= seq![default_argv0@]);
        v
    } else {
        args
    }
}

/// Checks a string read from user memory: it must be valid UTF-8
/// (`EINVAL` otherwise).
pub fn check_user_string(bytes: &[u8]) -> (r: Result<(), Errno>)
    ensures
        r == if crate::shebang::is_utf8(bytes@) { Ok::<(), Errno>(()) } else { Err(Errno::EINVAL) },
{
    if crate::shebang::utf8_ok(bytes) {
        Ok(())
    } else {
        Err(Errno::EINVAL)
    }
}

} // verus!
