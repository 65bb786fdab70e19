use vstd::prelude::*;
use vstd::string::StringSliceAdditionalSpecFns;
use crate::bytes::{
    append_bytes, bytes_eq, contains_bytes, copy_range, ends_with, find_byte, first_index_of,
    has_infix, has_prefix, has_suffix, last_index_of, lemma_first_index_of_bounds,
    lemma_last_index_of_bounds, rfind_byte, starts_with, trim_end, trim_end_byte, trim_start,
    trim_start_byte,
};
use crate::path::{copy_all, last_component, lit, normalize_path, normalized, views, SLASH};
use crate::path::{
    all_clean, apply_part, clean_part, join_parts, joined_input, lemma_resolve_word, normalize_canonical,
    resolve, resolve_from,
};

verus! {

/// `root` joined with the normalized absolute form of `path`.
pub open spec fn join_root(root: Seq<u8>, path: Seq<u8>) -> Seq<u8> {
    let n = normalized(lit("/"), path);
    if root == lit("/") {
        n
    } else {
        let rel = trim_start(n, SLASH);
        if rel.len() == 0 { root } else { trim_end(root, SLASH) + seq![SLASH] + rel }
    }
}

/// `c` with `x` appended unless `x` is in it already.
pub open spec fn push_unique(c: Seq<Seq<u8>>, x: Seq<u8>) -> Seq<Seq<u8>> {
    if c.contains(x) { c } else { c.push(x) }
}

/// A name that the glibc loader or glibc itself goes by.
pub open spec fn glibc_name(n: Seq<u8>) -> bool {
    has_prefix(n, lit("ld-linux-")) || has_suffix(n, lit(".so.6"))
}

/// A name that the musl loader or musl itself goes by.
pub open spec fn musl_name(n: Seq<u8>) -> bool {
    has_prefix(n, lit("ld-musl-")) || n == lit("libc.so")
}

/// A name that looks like a loader or a shared library.
pub open spec fn library_like(n: Seq<u8>) -> bool {
    has_prefix(n, lit("ld-")) || has_infix(n, lit(".so"))
}

/// The runtime roots to search, most specific first, without repetition.
pub open spec fn roots_spec(exec_root: Seq<u8>, path: Seq<u8>) -> Seq<Seq<u8>> {
    let name = last_component(path);
    let r1 = if glibc_name(name) { push_unique(seq![], lit("/glibc")) } else { seq![] };
    let r2 = if musl_name(name) { push_unique(r1, lit("/musl")) } else { r1 };
    let r3 = if exec_root != lit("/") { push_unique(r2, exec_root) } else { r2 };
    push_unique(push_unique(r3, lit("/musl")), lit("/glibc"))
}

/// Candidates for the multiarch subdirectory form `<arch>/<tail>` of `suffix`.
pub open spec fn multiarch_spec(c: Seq<Seq<u8>>, root: Seq<u8>, suffix: Seq<u8>) -> Seq<Seq<u8>> {
    match first_index_of(suffix, SLASH) {
        None => c,
        Some(i) => {
            let tail = suffix.subrange(i + 1, suffix.len() as int);
            if tail.len() == 0 {
                c
            } else {
                push_unique(
                    push_unique(c, join_root(root, lit("/lib/") + tail)),
                    join_root(root, lit("/lib64/") + tail),
                )
            }
        },
    }
}

/// Candidates that stand in for a musl loader name.
pub open spec fn musl_alias_spec(c: Seq<Seq<u8>>, root: Seq<u8>, path: Seq<u8>) -> Seq<Seq<u8>> {
    let name = last_component(path);
    if has_prefix(name, lit("ld-musl-")) && has_suffix(name, lit(".so.1")) {
        push_unique(
            push_unique(c, join_root(root, lit("/lib/libc.so"))),
            join_root(root, lit("/lib64/libc.so")),
        )
    } else {
        c
    }
}

/// Whether `c` holds `x`.
fn contains_candidate(c: &Vec<Vec<u8>>, x: &[u8]) -> (r: bool)
    ensures
        r == views(c@).contains(x@),
{
    let mut i: usize = 0;
    while i < c.len()
        invariant
            i <= c.len(),
            forall|j: int| 0 <= j < i ==> views(c@)[j] != x@,
        decreases c.len() - i,
    {
        if bytes_eq(c[i].as_slice(), x) {
            assert(views(c@)[i as int] == x@);
            return true;
        }
        i += 1;
    }
    false
}

/// Appends `candidate` to `candidates` unless it is absent or already there.
pub fn push_runtime_candidate(candidates: &mut Vec<Vec<u8>>, candidate: Option<Vec<u8>>)
    ensures
        views(final(candidates)@) == match candidate {
            Some(x) => push_unique(views(old(candidates)@), x@),
            None => views(old(candidates)@),
        },
{
    let Some(candidate) = candidate else {
        return;
    };
    if !contains_candidate(candidates, candidate.as_slice()) {
        let ghost before = views(candidates@);
        let ghost x = candidate@;
        candidates.push(candidate);
        assert(views(candidates@) =~= before.push(x));
    }
}

/// `root` joined with `path`, as [`join_root`] says.
pub fn join_runtime_root(root: &[u8], path: &[u8]) -> (r: Option<Vec<u8>>)
    ensures
        r matches Some(v) && v@ == join_root(root@, path@),
{
    let n = normalize_path("/".as_bytes(), path).unwrap();
    if bytes_eq(root, "/".as_bytes()) {
        return Some(n);
    }
    let rel = trim_start_byte(n.as_slice(), SLASH);
    if rel.len() == 0 {
        return Some(copy_all(root));
    }
    let mut out = trim_end_byte(root, SLASH);
    out.push(SLASH);
    append_bytes(&mut out, rel.as_slice());
    Some(out)
}

/// `a` followed by `b`.
fn concat(a: &[u8], b: &[u8]) -> (r: Vec<u8>)
    ensures
        r@ == a@ + b@,
{
    let mut out = copy_all(a);
    append_bytes(&mut out, b);
    out
}

/// Pushes `root` joined with `prefix` and `rest`.
fn push_join(c: &mut Vec<Vec<u8>>, root: &[u8], prefix: &[u8], rest: &[u8])
    ensures
        views(final(c)@) == push_unique(views(old(c)@), join_root(root@, prefix@ + rest@)),
{
    let p = concat(prefix, rest);
    push_runtime_candidate(c, join_runtime_root(root, p.as_slice()));
}

/// The last component of `s`.
fn last_component_of(s: &[u8]) -> (r: Vec<u8>)
    ensures
        r@ == last_component(s@),
{
    match rfind_byte(s, SLASH) {
        Some(i) => {
            proof { lemma_last_index_of_bounds(s@, SLASH); }
            assert(last_index_of(s@, SLASH) == Some(i as int));
            assert(i < s.len());
            copy_range(s, i + 1, s.len())
        },
        None => copy_all(s),
    }
}

fn is_glibc_runtime_name(name: &[u8]) -> (r: bool)
    ensures
        r == glibc_name(name@),
{
    starts_with(name, "ld-linux-".as_bytes()) || ends_with(name, ".so.6".as_bytes())
}

fn is_musl_runtime_name(name: &[u8]) -> (r: bool)
    ensures
        r == musl_name(name@),
{
    starts_with(name, "ld-musl-".as_bytes()) || bytes_eq(name, "libc.so".as_bytes())
}

fn looks_like_runtime_library_name(name: &[u8]) -> (r: bool)
    ensures
        r == library_like(name@),
{
    starts_with(name, "ld-".as_bytes()) || contains_bytes(name, ".so".as_bytes())
}

/// The runtime roots to search for `path`, most specific first.
pub fn runtime_root_candidates(exec_root: &[u8], path: &[u8]) -> (r: Vec<Vec<u8>>)
    ensures
        views(r@) == roots_spec(exec_root@, path@),
{
    let name = last_component_of(path);
    let mut roots: Vec<Vec<u8>> = Vec::new();
    assert(views(roots@) =~= seq![]);
    if is_glibc_runtime_name(name.as_slice()) {
        push_runtime_candidate(&mut roots, Some(copy_all("/glibc".as_bytes())));
    }
    if is_musl_runtime_name(name.as_slice()) {
        push_runtime_candidate(&mut roots, Some(copy_all("/musl".as_bytes())));
    }
    if !bytes_eq(exec_root, "/".as_bytes()) {
        push_runtime_candidate(&mut roots, Some(copy_all(exec_root)));
    }
    push_runtime_candidate(&mut roots, Some(copy_all("/musl".as_bytes())));
    push_runtime_candidate(&mut roots, Some(copy_all("/glibc".as_bytes())));
    roots
}

/// Adds the multiarch aliases of `suffix` under `root`.
pub fn push_multiarch_runtime_aliases(c: &mut Vec<Vec<u8>>, root: &[u8], suffix: &[u8])
    ensures
        views(final(c)@) == multiarch_spec(views(old(c)@), root@, suffix@),
{
    let Some(i) = find_byte(suffix, SLASH) else {
        return;
    };
    proof { lemma_first_index_of_bounds(suffix@, SLASH); }
    assert(first_index_of(suffix@, SLASH) == Some(i as int));
    assert(i < suffix.len());
    let tail = copy_range(suffix, i + 1, suffix.len());
    if tail.len() == 0 {
        return;
    }
    push_join(c, root, "/lib/".as_bytes(), tail.as_slice());
    push_join(c, root, "/lib64/".as_bytes(), tail.as_slice());
}

/// Adds the C library that a musl loader name stands for under `root`.
pub fn push_musl_loader_aliases(c: &mut Vec<Vec<u8>>, root: &[u8], path: &[u8])
    ensures
        views(final(c)@) == musl_alias_spec(views(old(c)@), root@, path@),
{
    let name = last_component_of(path);
    if !starts_with(name.as_slice(), "ld-musl-".as_bytes())
        || !ends_with(name.as_slice(), ".so.1".as_bytes()) {
        return;
    }
    push_runtime_candidate(c, join_runtime_root(root, "/lib/libc.so".as_bytes()));
    push_runtime_candidate(c, join_runtime_root(root, "/lib64/libc.so".as_bytes()));
}


/// The candidates that one runtime root adds for a bare library name.
pub open spec fn lib_step(c: Seq<Seq<u8>>, root: Seq<u8>, name: Seq<u8>) -> Seq<Seq<u8>> {
    let c1 = push_unique(c, join_root(root, lit("/lib/") + name));
    let c2 = push_unique(c1, join_root(root, lit("/lib64/") + name));
    let c3 = push_unique(c2, join_root(root, lit("/usr/lib/") + name));
    let c4 = push_unique(c3, join_root(root, lit("/usr/lib64/") + name));
    musl_alias_spec(c4, root, name)
}

/// The candidates of the first `k` roots for a bare library name.
pub open spec fn lib_fold(roots: Seq<Seq<u8>>, name: Seq<u8>, k: int) -> Seq<Seq<u8>>
    decreases k,
{
    if k <= 0 { seq![] } else { lib_step(lib_fold(roots, name, k - 1), roots[k - 1], name) }
}

/// Where a shared library named `name` (no `/`) may be found.
pub open spec fn library_candidates(exec_root: Seq<u8>, name: Seq<u8>) -> Seq<Seq<u8>> {
    if name.contains(SLASH) || !library_like(name) {
        seq![]
    } else {
        let roots = roots_spec(exec_root, name);
        lib_fold(roots, name, roots.len() as int)
    }
}

/// The candidates that one runtime root adds for the absolute path `n` in
/// one of the library directories (with `suffix` below it).
pub open spec fn dir_step(
    c: Seq<Seq<u8>>,
    root: Seq<u8>,
    n: Seq<u8>,
    dir: Seq<u8>,
    first: Seq<u8>,
    second: Option<Seq<u8>>,
) -> Seq<Seq<u8>> {
    let c1 = push_unique(c, join_root(root, n));
    if n == dir {
        let c2 = push_unique(c1, join_root(root, first));
        match second {
            Some(d) => push_unique(c2, join_root(root, d)),
            None => c2,
        }
    } else {
        let suffix = n.subrange(dir.len() + 1int, n.len() as int);
        let c2 = push_unique(c1, join_root(root, first + seq![SLASH] + suffix));
        let c3 = match second {
            Some(d) => push_unique(c2, join_root(root, d + seq![SLASH] + suffix)),
            None => c2,
        };
        multiarch_spec(c3, root, suffix)
    }
}

/// The candidates that one runtime root adds for the absolute path `n`.
pub open spec fn abs_step(c: Seq<Seq<u8>>, root: Seq<u8>, n: Seq<u8>) -> Seq<Seq<u8>> {
    let c1 = if at_lib(n, lit("/lib")) {
        dir_step(c, root, n, lit("/lib"), lit("/lib64"), None)
    } else if at_lib(n, lit("/lib64")) {
        dir_step(c, root, n, lit("/lib64"), lit("/lib"), None)
    } else if at_lib(n, lit("/usr/lib")) {
        dir_step(c, root, n, lit("/usr/lib"), lit("/lib"), Some(lit("/lib64")))
    } else if at_lib(n, lit("/usr/lib64")) {
        dir_step(c, root, n, lit("/usr/lib64"), lit("/lib64"), Some(lit("/lib")))
    } else if has_prefix(n, lit("/etc/ld")) {
        push_unique(c, join_root(root, n))
    } else {
        c
    };
    musl_alias_spec(c1, root, n)
}

/// `n` is the directory `dir` or lies below it.
pub open spec fn at_lib(n: Seq<u8>, dir: Seq<u8>) -> bool {
    n == dir || has_prefix(n, dir + seq![SLASH])
}

/// The candidates of the first `k` roots for the absolute path `n`.
pub open spec fn abs_fold(roots: Seq<Seq<u8>>, n: Seq<u8>, k: int) -> Seq<Seq<u8>>
    decreases k,
{
    if k <= 0 { seq![n] } else { abs_step(abs_fold(roots, n, k - 1), roots[k - 1], n) }
}

/// Where the file at the absolute `path` may be found among the runtime roots.
pub open spec fn absolute_candidates(exec_root: Seq<u8>, path: Seq<u8>) -> Seq<Seq<u8>> {
    let n = normalized(lit("/"), path);
    let roots = roots_spec(exec_root, n);
    abs_fold(roots, n, roots.len() as int)
}

/// Candidate locations of a shared library given by bare name.
pub fn runtime_library_name_candidates(exec_root: &[u8], name: &[u8]) -> (r: Vec<Vec<u8>>)
    ensures
        views(r@) == library_candidates(exec_root@, name@),
{
    let mut candidates: Vec<Vec<u8>> = Vec::new();
    assert(views(candidates@) =~= seq![]);
    let has_slash = find_byte(name, SLASH).is_some();
    proof {
        lemma_first_index_of_bounds(name@, SLASH);
        if name@.contains(SLASH) {
            let k = choose|k: int| 0 <= k < name@.len() && name@[k] == SLASH;
            assert(name@[k] == SLASH);
        }
    }
    if has_slash || !looks_like_runtime_library_name(name) {
        return candidates;
    }
    let roots = runtime_root_candidates(exec_root, name);
    let ghost rs = views(roots@);
    let mut i: usize = 0;
    while i < roots.len()
        invariant
            i <= roots.len(),
            rs == views(roots@),
            views(candidates@) == lib_fold(rs, name@, i as int),
        decreases roots.len() - i,
    {
        let root = roots[i].as_slice();
        assert(root@ == rs[i as int]);
        push_join(&mut candidates, root, "/lib/".as_bytes(), name);
        push_join(&mut candidates, root, "/lib64/".as_bytes(), name);
        push_join(&mut candidates, root, "/usr/lib/".as_bytes(), name);
        push_join(&mut candidates, root, "/usr/lib64/".as_bytes(), name);
        push_musl_loader_aliases(&mut candidates, root, name);
        i += 1;
    }
    candidates
}

/// Adds the candidates that `root` gives for `n` below the library directory `dir`.
fn push_dir_candidates(
    c: &mut Vec<Vec<u8>>,
    root: &[u8],
    n: &[u8],
    dir: &[u8],
    first: &[u8],
    second: Option<&[u8]>,
)
    requires
        n@ == dir@ || has_prefix(n@, dir@ + seq![SLASH]),
    ensures
        views(final(c)@) == dir_step(views(old(c)@), root@, n@, dir@, first@, match second {
            Some(d) => Some(d@),
            None => None,
        }),
{
    push_runtime_candidate(c, join_runtime_root(root, n));
    if bytes_eq(n, dir) {
        push_runtime_candidate(c, join_runtime_root(root, first));
        if let Some(d) = second {
            push_runtime_candidate(c, join_runtime_root(root, d));
        }
    } else {
        assert(n@.len() >= dir@.len() + 1);
        assert(dir.len() < n.len());
        let suffix = copy_range(n, dir.len() + 1, n.len());
        let mut p = copy_all(first);
        p.push(SLASH);
        assert(p@ =~= first@ + seq![SLASH]);
        push_join(c, root, p.as_slice(), suffix.as_slice());
        if let Some(d) = second {
            let mut q = copy_all(d);
            q.push(SLASH);
            assert(q@ =~= d@ + seq![SLASH]);
            push_join(c, root, q.as_slice(), suffix.as_slice());
        }
        push_multiarch_runtime_aliases(c, root, suffix.as_slice());
    }
}

/// Whether `n` is `dir` or lies below it.
fn is_at_lib(n: &[u8], dir: &[u8]) -> (r: bool)
    ensures
        r == at_lib(n@, dir@),
{
    if bytes_eq(n, dir) {
        return true;
    }
    let mut d = copy_all(dir);
    d.push(SLASH);
    assert(d@ =~= dir@ + seq![SLASH]);
    starts_with(n, d.as_slice())
}

/// Candidate locations of the file at the absolute `path` among the runtime roots.
pub fn runtime_absolute_path_candidates(exec_root: &[u8], path: &[u8]) -> (r: Vec<Vec<u8>>)
    ensures
        views(r@) == absolute_candidates(exec_root@, path@),
{
    let n = normalize_path("/".as_bytes(), path).unwrap();
    let ns = n.as_slice();
    let mut candidates: Vec<Vec<u8>> = Vec::new();
    candidates.push(copy_all(ns));
    assert(views(candidates@) =~= seq![n@]);
    let roots = runtime_root_candidates(exec_root, ns);
    let ghost rs = views(roots@);
    let mut i: usize = 0;
    while i < roots.len()
        invariant
            i <= roots.len(),
            rs == views(roots@),
            ns@ == n@,
            views(candidates@) == abs_fold(rs, n@, i as int),
        decreases roots.len() - i,
    {
        let root = roots[i].as_slice();
        assert(root@ == rs[i as int]);
        if is_at_lib(ns, "/lib".as_bytes()) {
            push_dir_candidates(&mut candidates, root, ns, "/lib".as_bytes(), "/lib64".as_bytes(), None);
        } else if is_at_lib(ns, "/lib64".as_bytes()) {
            push_dir_candidates(&mut candidates, root, ns, "/lib64".as_bytes(), "/lib".as_bytes(), None);
        } else if is_at_lib(ns, "/usr/lib".as_bytes()) {
            push_dir_candidates(
                &mut candidates, root, ns, "/usr/lib".as_bytes(), "/lib".as_bytes(),
                Some("/lib64".as_bytes()),
            );
        } else if is_at_lib(ns, "/usr/lib64".as_bytes()) {
            push_dir_candidates(
                &mut candidates, root, ns, "/usr/lib64".as_bytes(), "/lib64".as_bytes(),
                Some("/lib".as_bytes()),
            );
        } else if starts_with(ns, "/etc/ld".as_bytes()) {
            push_runtime_candidate(&mut candidates, join_runtime_root(root, ns));
        }
        push_musl_loader_aliases(&mut candidates, root, ns);
        i += 1;
    }
    candidates
}

/// The places to look for a loader or library that an executable names.
pub open spec fn support_candidates(exec_root: Seq<u8>, path: Seq<u8>) -> Seq<Seq<u8>> {
    if path.len() > 0 && path[0] == SLASH {
        absolute_candidates(exec_root, path)
    } else if !path.contains(SLASH) {
        library_candidates(exec_root, path)
    } else {
        seq![normalized(lit("/"), path)]
    }
}

/// The candidates, in order, for the runtime support file `path` (a loader
/// or a library) of a program whose runtime root is `exec_root`.
pub fn runtime_support_candidates(exec_root: &[u8], path: &[u8]) -> (r: Vec<Vec<u8>>)
    ensures
        views(r@) == support_candidates(exec_root@, path@),
{
    if path.len() > 0 && path[0] == SLASH {
        return runtime_absolute_path_candidates(exec_root, path);
    }
    let has_slash = find_byte(path, SLASH).is_some();
    proof {
        lemma_first_index_of_bounds(path@, SLASH);
        if path@.contains(SLASH) {
            let k = choose|k: int| 0 <= k < path@.len() && path@[k] == SLASH;
            assert(path@[k] == SLASH);
        }
    }
    if !has_slash {
        return runtime_library_name_candidates(exec_root, path);
    }
    let mut out: Vec<Vec<u8>> = Vec::new();
    out.push(normalize_path("/".as_bytes(), path).unwrap());
    assert(views(out@) =~= seq![normalized(lit("/"), path@)]);
    out
}

/// `b` is `a` with more candidates after it, and holds no candidate twice
/// when `a` holds none twice.
pub open spec fn extends_unique(a: Seq<Seq<u8>>, b: Seq<Seq<u8>>) -> bool {
    &&& a.len() <= b.len()
    &&& forall|i: int| 0 <= i < a.len() ==> #[trigger] b[i] == a[i]
    &&& a.no_duplicates() ==> b.no_duplicates()
}

proof fn lemma_extends_trans(a: Seq<Seq<u8>>, b: Seq<Seq<u8>>, c: Seq<Seq<u8>>)
    requires
        extends_unique(a, b),
        extends_unique(b, c),
    ensures
        extends_unique(a, c),
{
    assert forall|i: int| 0 <= i < a.len() implies #[trigger] c[i] == a[i] by {
        assert(b[i] == a[i]);
        assert(c[i] == b[i]);
    }
}

proof fn lemma_push_unique(c: Seq<Seq<u8>>, x: Seq<u8>)
    ensures
        extends_unique(c, push_unique(c, x)),
{
    if !c.contains(x) {
        let d = c.push(x);
        assert forall|i: int| 0 <= i < c.len() implies #[trigger] d[i] == c[i] by {}
        if c.no_duplicates() {
            assert forall|i: int, j: int| 0 <= i < d.len() && 0 <= j < d.len() && i != j implies d[i]
                != d[j] by {
                if i == c.len() as int {
                    assert(d[j] == c[j]);
                } else if j == c.len() as int {
                    assert(d[i] == c[i]);
                } else {
                    assert(d[i] == c[i] && d[j] == c[j]);
                }
            }
        }
    }
}

proof fn lemma_multiarch(c: Seq<Seq<u8>>, root: Seq<u8>, suffix: Seq<u8>)
    ensures
        extends_unique(c, multiarch_spec(c, root, suffix)),
{
    match first_index_of(suffix, SLASH) {
        None => {},
        Some(i) => {
            let tail = suffix.subrange(i + 1, suffix.len() as int);
            if tail.len() != 0 {
                let a = join_root(root, lit("/lib/") + tail);
                let b = join_root(root, lit("/lib64/") + tail);
                lemma_push_unique(c, a);
                lemma_push_unique(push_unique(c, a), b);
                lemma_extends_trans(c, push_unique(c, a), push_unique(push_unique(c, a), b));
            }
        },
    }
}

proof fn lemma_musl_alias(c: Seq<Seq<u8>>, root: Seq<u8>, path: Seq<u8>)
    ensures
        extends_unique(c, musl_alias_spec(c, root, path)),
{
    let a = join_root(root, lit("/lib/libc.so"));
    let b = join_root(root, lit("/lib64/libc.so"));
    lemma_push_unique(c, a);
    lemma_push_unique(push_unique(c, a), b);
    lemma_extends_trans(c, push_unique(c, a), push_unique(push_unique(c, a), b));
}

proof fn lemma_dir_step(
    c: Seq<Seq<u8>>,
    root: Seq<u8>,
    n: Seq<u8>,
    dir: Seq<u8>,
    first: Seq<u8>,
    second: Option<Seq<u8>>,
)
    ensures
        extends_unique(c, dir_step(c, root, n, dir, first, second)),
{
    let c1 = push_unique(c, join_root(root, n));
    lemma_push_unique(c, join_root(root, n));
    if n == dir {
        let c2 = push_unique(c1, join_root(root, first));
        lemma_push_unique(c1, join_root(root, first));
        lemma_extends_trans(c, c1, c2);
        match second {
            Some(d) => {
                lemma_push_unique(c2, join_root(root, d));
                lemma_extends_trans(c, c2, push_unique(c2, join_root(root, d)));
            },
            None => {},
        }
    } else {
        let suffix = n.subrange(dir.len() + 1int, n.len() as int);
        let c2 = push_unique(c1, join_root(root, first + seq![SLASH] + suffix));
        lemma_push_unique(c1, join_root(root, first + seq![SLASH] + suffix));
        lemma_extends_trans(c, c1, c2);
        let c3 = match second {
            Some(d) => push_unique(c2, join_root(root, d + seq![SLASH] + suffix)),
            None => c2,
        };
        match second {
            Some(d) => {
                lemma_push_unique(c2, join_root(root, d + seq![SLASH] + suffix));
                lemma_extends_trans(c, c2, c3);
            },
            None => {},
        }
        lemma_multiarch(c3, root, suffix);
        lemma_extends_trans(c, c3, multiarch_spec(c3, root, suffix));
    }
}

proof fn lemma_abs_step(c: Seq<Seq<u8>>, root: Seq<u8>, n: Seq<u8>)
    ensures
        extends_unique(c, abs_step(c, root, n)),
{
    let c1 = if at_lib(n, lit("/lib")) {
        lemma_dir_step(c, root, n, lit("/lib"), lit("/lib64"), None);
        dir_step(c, root, n, lit("/lib"), lit("/lib64"), None)
    } else if at_lib(n, lit("/lib64")) {
        lemma_dir_step(c, root, n, lit("/lib64"), lit("/lib"), None);
        dir_step(c, root, n, lit("/lib64"), lit("/lib"), None)
    } else if at_lib(n, lit("/usr/lib")) {
        lemma_dir_step(c, root, n, lit("/usr/lib"), lit("/lib"), Some(lit("/lib64")));
        dir_step(c, root, n, lit("/usr/lib"), lit("/lib"), Some(lit("/lib64")))
    } else if at_lib(n, lit("/usr/lib64")) {
        lemma_dir_step(c, root, n, lit("/usr/lib64"), lit("/lib64"), Some(lit("/lib")));
        dir_step(c, root, n, lit("/usr/lib64"), lit("/lib64"), Some(lit("/lib")))
    } else if has_prefix(n, lit("/etc/ld")) {
        lemma_push_unique(c, join_root(root, n));
        push_unique(c, join_root(root, n))
    } else {
        c
    };
    lemma_musl_alias(c1, root, n);
    lemma_extends_trans(c, c1, musl_alias_spec(c1, root, n));
}

/// Whether the absolute path `n` gets candidates beyond itself: it lies in
/// one of the library directories, names a loader configuration file, or
/// names a musl loader.
pub open spec fn has_runtime_aliases(n: Seq<u8>) -> bool {
    ||| at_lib(n, lit("/lib"))
    ||| at_lib(n, lit("/lib64"))
    ||| at_lib(n, lit("/usr/lib"))
    ||| at_lib(n, lit("/usr/lib64"))
    ||| has_prefix(n, lit("/etc/ld"))
    ||| (has_prefix(last_component(n), lit("ld-musl-")) && has_suffix(last_component(n), lit(".so.1")))
}

proof fn lemma_abs_fold(roots: Seq<Seq<u8>>, n: Seq<u8>, k: int)
    requires
        0 <= k <= roots.len(),
    ensures
        extends_unique(seq![n], abs_fold(roots, n, k)),
        !has_runtime_aliases(n) ==> abs_fold(roots, n, k) == seq![n],
    decreases k,
{
    if k > 0 {
        lemma_abs_fold(roots, n, k - 1);
        lemma_abs_step(abs_fold(roots, n, k - 1), roots[k - 1], n);
        lemma_extends_trans(seq![n], abs_fold(roots, n, k - 1), abs_fold(roots, n, k));
    }
}

/// The candidates for an absolute path start with its normalized form, hold
/// no place twice, and are that form alone when the path has no runtime
/// aliases (see `has_runtime_aliases`).
pub proof fn absolute_candidates_law(exec_root: Seq<u8>, path: Seq<u8>)
    ensures
        ({
            let c = absolute_candidates(exec_root, path);
            let n = normalized(lit("/"), path);
            &&& c.len() >= 1
            &&& c[0] == n
            &&& c.no_duplicates()
            &&& !has_runtime_aliases(n) ==> c == seq![n]
        }),
{
    let n = normalized(lit("/"), path);
    let roots = roots_spec(exec_root, n);
    lemma_abs_fold(roots, n, roots.len() as int);
    assert(seq![n].no_duplicates());
    assert(seq![n][0] == n);
}

/// What follows the last `/` of `p` (all of `p` when it has none) is a
/// clean component.
pub open spec fn ends_in_clean(p: Seq<u8>) -> bool {
    exists|k: int|
        -1 <= k < p.len() && (k >= 0 ==> p[k] == SLASH) && #[trigger] clean_part(
            p.subrange(k + 1, p.len() as int),
        )
}

/// A word of at least three bytes without `/` is a clean component.
proof fn lemma_word_clean(w: Seq<u8>)
    requires
        w.len() >= 3,
        forall|i: int| 0 <= i < w.len() ==> w[i] != SLASH,
    ensures
        clean_part(w),
{
    assert(w != seq![crate::path::DOT]);
    assert(w != seq![crate::path::DOT, crate::path::DOT]);
}

/// Putting anything and a `/` in front keeps the last component clean.
proof fn lemma_ends_in_clean_after(a: Seq<u8>, q: Seq<u8>)
    requires
        ends_in_clean(q),
    ensures
        ends_in_clean(a + seq![SLASH] + q),
{
    let k = choose|k: int|
        -1 <= k < q.len() && (k >= 0 ==> q[k] == SLASH) && #[trigger] clean_part(
            q.subrange(k + 1, q.len() as int),
        );
    let s = a + seq![SLASH] + q;
    let k2 = a.len() + 1 + k;
    assert(s.subrange(k2 + 1, s.len() as int) =~= q.subrange(k + 1, q.len() as int));
    assert(s[k2] == SLASH);
    assert(-1 <= k2 < s.len() && (k2 >= 0 ==> s[k2] == SLASH) && clean_part(
        s.subrange(k2 + 1, s.len() as int),
    ));
}

/// What follows a `/` of `s` ends in the same clean component.
proof fn lemma_ends_in_clean_tail(s: Seq<u8>, i: int)
    requires
        ends_in_clean(s),
        0 <= i < s.len(),
        s[i] == SLASH,
    ensures
        ends_in_clean(s.subrange(i + 1, s.len() as int)),
{
    let k = choose|k: int|
        -1 <= k < s.len() && (k >= 0 ==> s[k] == SLASH) && #[trigger] clean_part(
            s.subrange(k + 1, s.len() as int),
        );
    let w = s.subrange(k + 1, s.len() as int);
    assert(i <= k) by {
        if i > k {
            assert(w[i - k - 1] == SLASH);
            assert(w.contains(SLASH));
        }
    }
    let t = s.subrange(i + 1, s.len() as int);
    let k2 = k - i - 1;
    assert(t.subrange(k2 + 1, t.len() as int) =~= w);
    if k2 >= 0 {
        assert(t[k2] == s[k]);
    }
    assert(-1 <= k2 < t.len() && (k2 >= 0 ==> t[k2] == SLASH) && clean_part(
        t.subrange(k2 + 1, t.len() as int),
    ));
}

/// Reading `x`, a `/` and a word `w` without `/` ends by adding `w` as a
/// component to some stack.
proof fn lemma_resolve_last(x: Seq<u8>, w: Seq<u8>, stack: Seq<Seq<u8>>, cur: Seq<u8>) -> (p: Seq<Seq<u8>>)
    requires
        !w.contains(SLASH),
    ensures
        resolve_from(x + seq![SLASH] + w, stack, cur) == apply_part(p, w),
    decreases x.len(),
{
    let s = x + seq![SLASH] + w;
    if x.len() == 0 {
        assert(s.drop_first() =~= w + Seq::<u8>::empty());
        let p0 = apply_part(stack, cur);
        lemma_resolve_word(w, Seq::empty(), p0, seq![]);
        assert(Seq::<u8>::empty() + w =~= w);
        p0
    } else if x[0] == SLASH {
        assert(s.drop_first() =~= x.drop_first() + seq![SLASH] + w);
        lemma_resolve_last(x.drop_first(), w, apply_part(stack, cur), seq![])
    } else {
        assert(s.drop_first() =~= x.drop_first() + seq![SLASH] + w);
        lemma_resolve_last(x.drop_first(), w, stack, cur.push(x[0]))
    }
}

/// The components joined are not empty and start with the first byte of
/// the first component.
proof fn lemma_join_parts_first(parts: Seq<Seq<u8>>)
    requires
        parts.len() > 0,
        parts[0].len() > 0,
    ensures
        join_parts(parts).len() > 0,
        join_parts(parts)[0] == parts[0][0],
    decreases parts.len(),
{
    if parts.len() > 1 {
        lemma_join_parts_first(parts.drop_last());
    }
}

/// Clean components joined end in a clean component.
proof fn lemma_join_parts_ends_clean(parts: Seq<Seq<u8>>)
    requires
        parts.len() > 0,
        all_clean(parts),
    ensures
        ends_in_clean(join_parts(parts)),
    decreases parts.len(),
{
    let l = parts.last();
    assert(clean_part(l));
    assert(l.subrange(0, l.len() as int) =~= l);
    assert(ends_in_clean(l)) by {
        assert(-1 <= -1int < l.len() && clean_part(l.subrange(-1int + 1, l.len() as int)));
    }
    if parts.len() > 1 {
        lemma_ends_in_clean_after(join_parts(parts.drop_last()), l);
    }
}

/// A runtime root that is a directory other than `/` written without a
/// trailing `/`.
pub open spec fn root_ok(r: Seq<u8>) -> bool {
    r.len() > 0 && r.last() != SLASH
}

/// Joining a root with an absolute path that ends in a clean component
/// gives a path below the root.
proof fn lemma_join_root_under(root: Seq<u8>, p: Seq<u8>)
    requires
        root_ok(root),
        p.len() > 0,
        p[0] == SLASH,
        ends_in_clean(p),
    ensures
        has_prefix(join_root(root, p), root + seq![SLASH]),
{
    let k = choose|k: int|
        -1 <= k < p.len() && (k >= 0 ==> p[k] == SLASH) && #[trigger] clean_part(
            p.subrange(k + 1, p.len() as int),
        );
    let w = p.subrange(k + 1, p.len() as int);
    assert(k >= 0) by {
        if k == -1 {
            assert(w[0] == SLASH);
            assert(w.contains(SLASH));
        }
    }
    let x = p.subrange(0, k);
    assert(p =~= x + seq![SLASH] + w);
    let base = lit("/");
    normalize_canonical(base, p, base);
    assert(joined_input(base, p) == p);
    let parts = resolve(p);
    let pre = lemma_resolve_last(x, w, seq![], seq![]);
    assert(parts == apply_part(pre, w));
    assert(w != seq![crate::path::DOT] && w != seq![crate::path::DOT, crate::path::DOT] && w.len() > 0);
    assert(parts == pre.push(w));
    assert(parts.len() > 0);
    assert(all_clean(parts));
    assert(clean_part(parts[0]));
    lemma_join_parts_first(parts);
    let j = join_parts(parts);
    let n = normalized(base, p);
    assert(n == seq![SLASH] + j);
    assert(j[0] != SLASH) by {
        assert(parts[0].contains(parts[0][0]));
    }
    assert(n.drop_first() =~= j);
    assert(trim_start(n, SLASH) == trim_start(j, SLASH));
    assert(trim_start(j, SLASH) == j);
    assert(root != base) by {
        reveal_strlit("/");
        assert(vstd::string::is_ascii("/"));
        vstd::string::is_ascii_spec_bytes("/");
        assert(base =~= seq![SLASH]);
    }
    assert(trim_end(root, SLASH) == root);
    let r = join_root(root, p);
    assert(r == root + seq![SLASH] + j);
    assert(r.subrange(0, root.len() + 1int) =~= root + seq![SLASH]);
}

/// The bytes of the literal paths the candidates are built from.
proof fn lemma_path_lits()
    ensures
        lit("/") == seq![SLASH],
        lit("/lib") == seq![47u8, 108u8, 105u8, 98u8],
        lit("/lib64") == seq![47u8, 108u8, 105u8, 98u8, 54u8, 52u8],
        lit("/usr/lib") == seq![47u8, 117u8, 115u8, 114u8, 47u8, 108u8, 105u8, 98u8],
        lit("/usr/lib64") == seq![47u8, 117u8, 115u8, 114u8, 47u8, 108u8, 105u8, 98u8, 54u8, 52u8],
        lit("/lib/") == lit("/lib") + seq![SLASH],
        lit("/lib64/") == lit("/lib64") + seq![SLASH],
        lit("/lib/libc.so") == lit("/lib") + seq![SLASH] + seq![108u8, 105u8, 98u8, 99u8, 46u8, 115u8, 111u8],
        lit("/lib64/libc.so") == lit("/lib64") + seq![SLASH] + seq![108u8, 105u8, 98u8, 99u8, 46u8, 115u8, 111u8],
        lit("/glibc") == seq![47u8, 103u8, 108u8, 105u8, 98u8, 99u8],
        lit("/musl") == seq![47u8, 109u8, 117u8, 115u8, 108u8],
        lit("/etc/ld") == seq![47u8, 101u8, 116u8, 99u8, 47u8, 108u8, 100u8],
{
    reveal_strlit("/");
    reveal_strlit("/lib");
    reveal_strlit("/lib64");
    reveal_strlit("/usr/lib");
    reveal_strlit("/usr/lib64");
    reveal_strlit("/lib/");
    reveal_strlit("/lib64/");
    reveal_strlit("/lib/libc.so");
    reveal_strlit("/lib64/libc.so");
    reveal_strlit("/glibc");
    reveal_strlit("/musl");
    reveal_strlit("/etc/ld");
    assert(vstd::string::is_ascii("/"));
    assert(vstd::string::is_ascii("/lib"));
    assert(vstd::string::is_ascii("/lib64"));
    assert(vstd::string::is_ascii("/usr/lib"));
    assert(vstd::string::is_ascii("/usr/lib64"));
    assert(vstd::string::is_ascii("/lib/"));
    assert(vstd::string::is_ascii("/lib64/"));
    assert(vstd::string::is_ascii("/lib/libc.so"));
    assert(vstd::string::is_ascii("/lib64/libc.so"));
    assert(vstd::string::is_ascii("/glibc"));
    assert(vstd::string::is_ascii("/musl"));
    assert(vstd::string::is_ascii("/etc/ld"));
    vstd::string::is_ascii_spec_bytes("/");
    vstd::string::is_ascii_spec_bytes("/lib");
    vstd::string::is_ascii_spec_bytes("/lib64");
    vstd::string::is_ascii_spec_bytes("/usr/lib");
    vstd::string::is_ascii_spec_bytes("/usr/lib64");
    vstd::string::is_ascii_spec_bytes("/lib/");
    vstd::string::is_ascii_spec_bytes("/lib64/");
    vstd::string::is_ascii_spec_bytes("/lib/libc.so");
    vstd::string::is_ascii_spec_bytes("/lib64/libc.so");
    vstd::string::is_ascii_spec_bytes("/glibc");
    vstd::string::is_ascii_spec_bytes("/musl");
    vstd::string::is_ascii_spec_bytes("/etc/ld");
    assert(lit("/") =~= seq![SLASH]);
    assert(lit("/lib") =~= seq![47u8, 108u8, 105u8, 98u8]);
    assert(lit("/lib64") =~= seq![47u8, 108u8, 105u8, 98u8, 54u8, 52u8]);
    assert(lit("/usr/lib") =~= seq![47u8, 117u8, 115u8, 114u8, 47u8, 108u8, 105u8, 98u8]);
    assert(lit("/usr/lib64") =~= seq![47u8, 117u8, 115u8, 114u8, 47u8, 108u8, 105u8, 98u8, 54u8, 52u8]);
    assert(lit("/lib/") =~= lit("/lib") + seq![SLASH]);
    assert(lit("/lib64/") =~= lit("/lib64") + seq![SLASH]);
    assert(lit("/lib/libc.so") =~= lit("/lib") + seq![SLASH] + seq![108u8, 105u8, 98u8, 99u8, 46u8, 115u8, 111u8]);
    assert(lit("/lib64/libc.so") =~= lit("/lib64") + seq![SLASH] + seq![108u8, 105u8, 98u8, 99u8, 46u8, 115u8, 111u8]);
    assert(lit("/glibc") =~= seq![47u8, 103u8, 108u8, 105u8, 98u8, 99u8]);
    assert(lit("/musl") =~= seq![47u8, 109u8, 117u8, 115u8, 108u8]);
    assert(lit("/etc/ld") =~= seq![47u8, 101u8, 116u8, 99u8, 47u8, 108u8, 100u8]);
}

/// A word of at least three bytes without `/` ends in a clean component.
proof fn lemma_word_ends_clean(w: Seq<u8>)
    requires
        w.len() >= 3,
        forall|i: int| 0 <= i < w.len() ==> w[i] != SLASH,
    ensures
        ends_in_clean(w),
{
    lemma_word_clean(w);
    assert(w.subrange(0, w.len() as int) =~= w);
    assert(-1 <= -1int < w.len() && clean_part(w.subrange(-1int + 1, w.len() as int)));
}

/// The absolute literal paths among the candidates end in a clean
/// component, and the fixed roots are proper roots.
proof fn lemma_lit_paths()
    ensures
        ends_in_clean(lit("/lib")),
        ends_in_clean(lit("/lib64")),
        ends_in_clean(lit("/lib/libc.so")),
        ends_in_clean(lit("/lib64/libc.so")),
        root_ok(lit("/glibc")),
        root_ok(lit("/musl")),
{
    lemma_path_lits();
    let lib = seq![108u8, 105u8, 98u8];
    let lib64 = seq![108u8, 105u8, 98u8, 54u8, 52u8];
    let libc = seq![108u8, 105u8, 98u8, 99u8, 46u8, 115u8, 111u8];
    assert forall|i: int| 0 <= i < lib.len() implies lib[i] != SLASH by {}
    assert forall|i: int| 0 <= i < lib64.len() implies lib64[i] != SLASH by {}
    assert forall|i: int| 0 <= i < libc.len() implies libc[i] != SLASH by {}
    lemma_word_ends_clean(lib);
    lemma_word_ends_clean(lib64);
    lemma_word_ends_clean(libc);
    let e = Seq::<u8>::empty();
    lemma_ends_in_clean_after(e, lib);
    lemma_ends_in_clean_after(e, lib64);
    assert(lit("/lib") =~= e + seq![SLASH] + lib);
    assert(lit("/lib64") =~= e + seq![SLASH] + lib64);
    lemma_ends_in_clean_after(lit("/lib"), libc);
    lemma_ends_in_clean_after(lit("/lib64"), libc);
}

/// `x` lies below one of `roots`: it starts with the root and a `/`.
pub open spec fn under_some_root(x: Seq<u8>, roots: Seq<Seq<u8>>) -> bool {
    exists|j: int| 0 <= j < roots.len() && #[trigger] has_prefix(x, roots[j] + seq![SLASH])
}

/// Every candidate after the first lies below one of `roots`.
pub open spec fn tail_under(c: Seq<Seq<u8>>, roots: Seq<Seq<u8>>) -> bool {
    forall|i: int| 1 <= i < c.len() ==> under_some_root(#[trigger] c[i], roots)
}

/// Adding the join of a root of `roots` with a path below `/` that ends
/// in a clean component keeps every later candidate below a root.
proof fn lemma_push_under(c: Seq<Seq<u8>>, roots: Seq<Seq<u8>>, j: int, q: Seq<u8>)
    requires
        c.len() >= 1,
        tail_under(c, roots),
        0 <= j < roots.len(),
        root_ok(roots[j]),
        q.len() > 0,
        q[0] == SLASH,
        ends_in_clean(q),
    ensures
        push_unique(c, join_root(roots[j], q)).len() >= 1,
        tail_under(push_unique(c, join_root(roots[j], q)), roots),
{
    let x = join_root(roots[j], q);
    lemma_join_root_under(roots[j], q);
    let d = push_unique(c, x);
    assert forall|i: int| 1 <= i < d.len() implies under_some_root(#[trigger] d[i], roots) by {
        if i < c.len() {
            assert(d[i] == c[i]);
        } else {
            assert(d[i] == x);
            assert(has_prefix(d[i], roots[j] + seq![SLASH]));
        }
    }
}

/// What the multiarch aliases add lies below the root.
proof fn lemma_multiarch_under(c: Seq<Seq<u8>>, roots: Seq<Seq<u8>>, j: int, suffix: Seq<u8>)
    requires
        c.len() >= 1,
        tail_under(c, roots),
        0 <= j < roots.len(),
        root_ok(roots[j]),
        ends_in_clean(suffix),
    ensures
        multiarch_spec(c, roots[j], suffix).len() >= 1,
        tail_under(multiarch_spec(c, roots[j], suffix), roots),
{
    let root = roots[j];
    lemma_first_index_of_bounds(suffix, SLASH);
    match first_index_of(suffix, SLASH) {
        None => {},
        Some(i) => {
            let tail = suffix.subrange(i + 1, suffix.len() as int);
            if tail.len() != 0 {
                lemma_ends_in_clean_tail(suffix, i);
                lemma_path_lits();
                let q1 = lit("/lib/") + tail;
                let q2 = lit("/lib64/") + tail;
                assert(q1 =~= lit("/lib") + seq![SLASH] + tail);
                assert(q2 =~= lit("/lib64") + seq![SLASH] + tail);
                lemma_ends_in_clean_after(lit("/lib"), tail);
                lemma_ends_in_clean_after(lit("/lib64"), tail);
                lemma_push_under(c, roots, j, q1);
                lemma_push_under(push_unique(c, join_root(root, q1)), roots, j, q2);
            }
        },
    }
}

/// What the musl loader aliases add lies below the root.
proof fn lemma_musl_alias_under(c: Seq<Seq<u8>>, roots: Seq<Seq<u8>>, j: int, n: Seq<u8>)
    requires
        c.len() >= 1,
        tail_under(c, roots),
        0 <= j < roots.len(),
        root_ok(roots[j]),
    ensures
        musl_alias_spec(c, roots[j], n).len() >= 1,
        tail_under(musl_alias_spec(c, roots[j], n), roots),
{
    lemma_path_lits();
    lemma_lit_paths();
    let a = lit("/lib/libc.so");
    let b = lit("/lib64/libc.so");
    lemma_push_under(c, roots, j, a);
    lemma_push_under(push_unique(c, join_root(roots[j], a)), roots, j, b);
}

/// What one library directory adds for the path `n` lies below the root.
proof fn lemma_dir_step_under(
    c: Seq<Seq<u8>>,
    roots: Seq<Seq<u8>>,
    j: int,
    n: Seq<u8>,
    dir: Seq<u8>,
    first: Seq<u8>,
    second: Option<Seq<u8>>,
)
    requires
        c.len() >= 1,
        tail_under(c, roots),
        0 <= j < roots.len(),
        root_ok(roots[j]),
        at_lib(n, dir),
        n.len() > 0,
        n[0] == SLASH,
        ends_in_clean(n),
        first.len() > 0,
        first[0] == SLASH,
        ends_in_clean(first),
        second matches Some(d) ==> d.len() > 0 && d[0] == SLASH && ends_in_clean(d),
    ensures
        dir_step(c, roots[j], n, dir, first, second).len() >= 1,
        tail_under(dir_step(c, roots[j], n, dir, first, second), roots),
{
    let root = roots[j];
    let c1 = push_unique(c, join_root(root, n));
    lemma_push_under(c, roots, j, n);
    if n == dir {
        let c2 = push_unique(c1, join_root(root, first));
        lemma_push_under(c1, roots, j, first);
        match second {
            Some(d) => {
                lemma_push_under(c2, roots, j, d);
            },
            None => {},
        }
    } else {
        let k = dir.len() as int;
        assert(has_prefix(n, dir + seq![SLASH]));
        assert(n.subrange(0, k + 1)[k] == (dir + seq![SLASH])[k]);
        assert(n[k] == SLASH);
        let suffix = n.subrange(k + 1, n.len() as int);
        lemma_ends_in_clean_tail(n, k);
        let q = first + seq![SLASH] + suffix;
        lemma_ends_in_clean_after(first, suffix);
        let c2 = push_unique(c1, join_root(root, q));
        lemma_push_under(c1, roots, j, q);
        let c3 = match second {
            Some(d) => push_unique(c2, join_root(root, d + seq![SLASH] + suffix)),
            None => c2,
        };
        match second {
            Some(d) => {
                lemma_ends_in_clean_after(d, suffix);
                lemma_push_under(c2, roots, j, d + seq![SLASH] + suffix);
            },
            None => {},
        }
        lemma_multiarch_under(c3, roots, j, suffix);
    }
}

/// What one runtime root adds for the normalized path `n` lies below it.
proof fn lemma_abs_step_under(c: Seq<Seq<u8>>, roots: Seq<Seq<u8>>, j: int, n: Seq<u8>)
    requires
        c.len() >= 1,
        tail_under(c, roots),
        0 <= j < roots.len(),
        root_ok(roots[j]),
        n.len() > 0,
        n[0] == SLASH,
        n.len() > 1 ==> ends_in_clean(n),
    ensures
        abs_step(c, roots[j], n).len() >= 1,
        tail_under(abs_step(c, roots[j], n), roots),
{
    let root = roots[j];
    lemma_path_lits();
    lemma_lit_paths();
    let c1 = if at_lib(n, lit("/lib")) {
        lemma_dir_step_under(c, roots, j, n, lit("/lib"), lit("/lib64"), None);
        dir_step(c, root, n, lit("/lib"), lit("/lib64"), None)
    } else if at_lib(n, lit("/lib64")) {
        lemma_dir_step_under(c, roots, j, n, lit("/lib64"), lit("/lib"), None);
        dir_step(c, root, n, lit("/lib64"), lit("/lib"), None)
    } else if at_lib(n, lit("/usr/lib")) {
        lemma_dir_step_under(c, roots, j, n, lit("/usr/lib"), lit("/lib"), Some(lit("/lib64")));
        dir_step(c, root, n, lit("/usr/lib"), lit("/lib"), Some(lit("/lib64")))
    } else if at_lib(n, lit("/usr/lib64")) {
        lemma_dir_step_under(c, roots, j, n, lit("/usr/lib64"), lit("/lib64"), Some(lit("/lib")));
        dir_step(c, root, n, lit("/usr/lib64"), lit("/lib64"), Some(lit("/lib")))
    } else if has_prefix(n, lit("/etc/ld")) {
        lemma_push_under(c, roots, j, n);
        push_unique(c, join_root(root, n))
    } else {
        c
    };
    lemma_musl_alias_under(c1, roots, j, n);
}

/// A normalized path starts with `/`, and ends in a clean component unless
/// it is `/` itself.
proof fn lemma_normalized_ends_clean(path: Seq<u8>)
    ensures
        normalized(lit("/"), path).len() > 0,
        normalized(lit("/"), path)[0] == SLASH,
        normalized(lit("/"), path).len() > 1 ==> ends_in_clean(normalized(lit("/"), path)),
{
    let base = lit("/");
    normalize_canonical(base, path, base);
    let parts = resolve(joined_input(base, path));
    if parts.len() > 0 {
        lemma_join_parts_ends_clean(parts);
        lemma_ends_in_clean_after(Seq::empty(), join_parts(parts));
        assert(Seq::<u8>::empty() + seq![SLASH] + join_parts(parts) =~= seq![SLASH] + join_parts(parts));
    } else {
        assert(seq![SLASH] + join_parts(parts) =~= seq![SLASH]);
    }
}

/// Adding a proper root keeps every root proper.
proof fn lemma_push_root_ok(c: Seq<Seq<u8>>, x: Seq<u8>)
    requires
        forall|j: int| 0 <= j < c.len() ==> root_ok(#[trigger] c[j]),
        root_ok(x),
    ensures
        forall|j: int| 0 <= j < push_unique(c, x).len() ==> root_ok(#[trigger] push_unique(c, x)[j]),
{
    assert forall|j: int| 0 <= j < push_unique(c, x).len() implies root_ok(#[trigger] push_unique(c, x)[j]) by {
        if !c.contains(x) && j == c.len() {
            assert(push_unique(c, x)[j] == x);
        } else {
            assert(push_unique(c, x)[j] == c[j]);
        }
    }
}

/// The runtime roots are proper roots when the program's root is `/` or an
/// absolute directory written without a trailing `/`.
proof fn lemma_roots_ok(exec_root: Seq<u8>, path: Seq<u8>)
    requires
        exec_root == lit("/") || (exec_root.len() > 0 && exec_root[0] == SLASH && exec_root.last() != SLASH),
    ensures
        forall|j: int| 0 <= j < roots_spec(exec_root, path).len() ==> root_ok(#[trigger] roots_spec(exec_root, path)[j]),
{
    lemma_lit_paths();
    let name = last_component(path);
    let e = Seq::<Seq<u8>>::empty();
    let r1 = if glibc_name(name) { push_unique(e, lit("/glibc")) } else { e };
    if glibc_name(name) {
        lemma_push_root_ok(e, lit("/glibc"));
    }
    let r2 = if musl_name(name) { push_unique(r1, lit("/musl")) } else { r1 };
    if musl_name(name) {
        lemma_push_root_ok(r1, lit("/musl"));
    }
    let r3 = if exec_root != lit("/") { push_unique(r2, exec_root) } else { r2 };
    if exec_root != lit("/") {
        lemma_push_root_ok(r2, exec_root);
    }
    lemma_push_root_ok(r3, lit("/musl"));
    lemma_push_root_ok(push_unique(r3, lit("/musl")), lit("/glibc"));
}

/// The candidates of the first `k` roots after the first lie below a root.
proof fn lemma_abs_fold_under(roots: Seq<Seq<u8>>, n: Seq<u8>, k: int)
    requires
        0 <= k <= roots.len(),
        forall|j: int| 0 <= j < roots.len() ==> root_ok(#[trigger] roots[j]),
        n.len() > 0,
        n[0] == SLASH,
        n.len() > 1 ==> ends_in_clean(n),
    ensures
        abs_fold(roots, n, k).len() >= 1,
        tail_under(abs_fold(roots, n, k), roots),
    decreases k,
{
    if k > 0 {
        lemma_abs_fold_under(roots, n, k - 1);
        lemma_abs_step_under(abs_fold(roots, n, k - 1), roots, k - 1, n);
    }
}

/// Every candidate for an absolute path after the first lies below one of
/// the runtime roots (`runtime_root_candidates` of the normalized path): it
/// starts with the root and a `/`. This holds when the program's root is `/`
/// or an absolute directory written without a trailing `/`.
pub proof fn absolute_candidates_under_roots(exec_root: Seq<u8>, path: Seq<u8>)
    requires
        exec_root == lit("/") || (exec_root.len() > 0 && exec_root[0] == SLASH && exec_root.last() != SLASH),
    ensures
        ({
            let c = absolute_candidates(exec_root, path);
            let roots = roots_spec(exec_root, normalized(lit("/"), path));
            forall|i: int| 1 <= i < c.len() ==> under_some_root(#[trigger] c[i], roots)
        }),
{
    let n = normalized(lit("/"), path);
    let roots = roots_spec(exec_root, n);
    lemma_roots_ok(exec_root, n);
    lemma_normalized_ends_clean(path);
    lemma_abs_fold_under(roots, n, roots.len() as int);
}

} // verus!
