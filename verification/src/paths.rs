//! Paths as the runc client handles them: made absolute, with `.` and `..` resolved
//! lexically, and looked up along a search path.
use vstd::prelude::*;

use crate::error::Error;

verus! {

/// `s` split at every occurrence of `c`; there is always at least one piece.
pub open spec fn split_char(s: Seq<char>, c: char) -> Seq<Seq<char>>
    decreases s.len(),
{
    if s.len() == 0 {
        seq![Seq::<char>::empty()]
    } else {
        let p = split_char(s.drop_last(), c);
        if s.last() == c {
            p.push(Seq::<char>::empty())
        } else {
            p.update(p.len() - 1, p.last().push(s.last()))
        }
    }
}

/// The pieces joined, with `sep` between consecutive ones.
pub open spec fn join(pieces: Seq<Seq<char>>, sep: Seq<char>) -> Seq<char>
    decreases pieces.len(),
{
    if pieces.len() == 0 {
        Seq::empty()
    } else if pieces.len() == 1 {
        pieces[0]
    } else {
        join(pieces.drop_last(), sep) + sep + pieces.last()
    }
}

/// One component of a path applied to the components kept so far: empty components and
/// `.` are dropped, `..` drops the last kept component, any other is kept.
pub open spec fn step(kept: Seq<Seq<char>>, comp: Seq<char>) -> Seq<Seq<char>> {
    if comp.len() == 0 || comp == "."@ {
        kept
    } else if comp == ".."@ {
        if kept.len() > 0 {
            kept.drop_last()
        } else {
            kept
        }
    } else {
        kept.push(comp)
    }
}

/// The components of a path that remain once `.` and `..` are resolved.
pub open spec fn resolve(comps: Seq<Seq<char>>) -> Seq<Seq<char>>
    decreases comps.len(),
{
    if comps.len() == 0 {
        Seq::empty()
    } else {
        step(resolve(comps.drop_last()), comps.last())
    }
}

/// Whether a path is absolute.
pub open spec fn is_absolute(p: Seq<char>) -> bool {
    p.len() > 0 && p[0] == '/'
}

/// A path with `.` and `..` resolved lexically and repeated separators collapsed: the
/// root stays, and `..` at the root stays at the root.
pub open spec fn normalized_path(p: Seq<char>) -> Seq<char> {
    (if is_absolute(p) { "/"@ } else { Seq::empty() }) + join(resolve(split_char(p, '/')), "/"@)
}

/// The pieces of `v[..i]` split at `/`, built up one character at a time.
proof fn lemma_split_step(s: Seq<char>, i: int, c: char)
    requires
        0 <= i < s.len(),
    ensures
        split_char(s.take(i + 1), c) == if s[i] == c {
            split_char(s.take(i), c).push(Seq::<char>::empty())
        } else {
            let p = split_char(s.take(i), c);
            p.update(p.len() - 1, p.last().push(s[i]))
        },
{
    assert(s.take(i + 1).drop_last() =~= s.take(i));
}

pub proof fn lemma_split_nonempty(s: Seq<char>, c: char)
    ensures
        split_char(s, c).len() >= 1,
    decreases s.len(),
{
    if s.len() > 0 {
        lemma_split_nonempty(s.drop_last(), c);
    }
}

/// The characters of the pieces joined with `/`, pushed onto `acc`.
fn push_joined(acc: &mut Vec<char>, pieces: &Vec<Vec<char>>)
    ensures
        final(acc)@ == old(acc)@ + join(pieces@.map_values(|v: Vec<char>| v@), "/"@),
{
    let ghost ps = pieces@.map_values(|v: Vec<char>| v@);
    let ghost start = acc@;
    let n = pieces.len();
    let mut i: usize = 0;
    proof {
        reveal_strlit("/");
        assert(ps.take(0) =~= Seq::<Seq<char>>::empty());
        assert(start + join(ps.take(0), "/"@) =~= start);
    }
    while i < n
        invariant
            n == pieces@.len(),
            i <= n,
            ps == pieces@.map_values(|v: Vec<char>| v@),
            acc@ == start + join(ps.take(i as int), "/"@),
            "/"@ == seq!['/'],
        decreases n - i,
    {
        if i > 0 {
            acc.push('/');
        }
        let piece = &pieces[i];
        let m = piece.len();
        let mut j: usize = 0;
        let ghost mid = acc@;
        while j < m
            invariant
                m == piece@.len(),
                j <= m,
                acc@ == mid + piece@.subrange(0, j as int),
            decreases m - j,
        {
            acc.push(piece[j]);
            j = j + 1;
            assert(acc@ =~= mid + piece@.subrange(0, j as int));
        }
        proof {
            assert(piece@.subrange(0, m as int) =~= piece@);
            assert(ps.take(i + 1).drop_last() =~= ps.take(i as int));
            assert(ps.take(i + 1).last() == piece@);
            if i == 0 {
                assert(ps.take(1) =~= seq![piece@]);
                assert(acc@ =~= start + join(ps.take(1), "/"@));
            } else {
                assert(acc@ =~= start + join(ps.take(i + 1), "/"@));
            }
        }
        i = i + 1;
    }
    assert(ps.take(n as int) =~= ps);
}

/// Resolves `.` and `..` in a path lexically and collapses repeated separators.
pub fn normalize_path(path: &str) -> (r: String)
    ensures
        r@ == normalized_path(path@),
{
    let chars = crate::text::chars_of(path);
    let n = chars.len();
    let mut kept: Vec<Vec<char>> = Vec::new();
    let mut cur: Vec<char> = Vec::new();
    let ghost s = chars@;
    let mut i: usize = 0;
    proof {
        reveal_strlit(".");
        reveal_strlit("..");
        assert(s.take(0) =~= Seq::<char>::empty());
        assert(split_char(s.take(0), '/') =~= seq![Seq::<char>::empty()]);
        assert(resolve(split_char(s.take(0), '/').drop_last()) =~= Seq::<Seq<char>>::empty()) by {
            assert(split_char(s.take(0), '/').drop_last() =~= Seq::<Seq<char>>::empty());
        }
        assert(kept@.map_values(|v: Vec<char>| v@) =~= Seq::<Seq<char>>::empty());
    }
    while i < n
        invariant
            n == s.len(),
            s == chars@,
            i <= n,
            "."@ == seq!['.'],
            ".."@ == seq!['.', '.'],
            split_char(s.take(i as int), '/').len() >= 1,
            kept@.map_values(|v: Vec<char>| v@) == resolve(split_char(s.take(i as int), '/').drop_last()),
            cur@ == split_char(s.take(i as int), '/').last(),
        decreases n - i,
    {
        proof {
            lemma_split_step(s, i as int, '/');
            lemma_split_nonempty(s.take(i as int), '/');
        }
        let ch = chars[i];
        if ch == '/' {
            let ghost before = kept@.map_values(|v: Vec<char>| v@);
            let ghost sp = split_char(s.take(i as int), '/');
            let comp = cur;
            cur = Vec::new();
            apply_component(&mut kept, comp);
            proof {
                let sp2 = split_char(s.take(i + 1), '/');
                assert(sp2 == sp.push(Seq::<char>::empty()));
                assert(sp2.drop_last() =~= sp);
                assert(sp.drop_last().push(sp.last()) =~= sp);
                assert(resolve(sp) == step(resolve(sp.drop_last()), sp.last()));
                assert(cur@ =~= sp2.last());
            }
        } else {
            cur.push(ch);
            proof {
                let sp = split_char(s.take(i as int), '/');
                let sp2 = split_char(s.take(i + 1), '/');
                assert(sp2.drop_last() =~= sp.drop_last());
                assert(cur@ =~= sp2.last());
            }
        }
        i = i + 1;
    }
    let ghost sp = split_char(s, '/');
    proof {
        assert(s.take(n as int) =~= s);
        lemma_split_nonempty(s, '/');
        assert(sp.drop_last().push(sp.last()) =~= sp);
    }
    apply_component(&mut kept, cur);
    let mut out: Vec<char> = Vec::new();
    if n > 0 && chars[0] == '/' {
        out.push('/');
    }
    proof {
        reveal_strlit("/");
        if n > 0 && s[0] == '/' {
            assert(out@ =~= "/"@);
        } else {
            assert(out@ =~= Seq::<char>::empty());
        }
    }
    push_joined(&mut out, &kept);
    crate::text::string_of(out.as_slice())
}

/// Applies one component to the kept components, as `step` does.
fn apply_component(kept: &mut Vec<Vec<char>>, comp: Vec<char>)
    ensures
        final(kept)@.map_values(|v: Vec<char>| v@) == step(old(kept)@.map_values(|v: Vec<char>| v@), comp@),
{
    proof {
        reveal_strlit(".");
        reveal_strlit("..");
    }
    let ghost before = kept@.map_values(|v: Vec<char>| v@);
    let n = comp.len();
    if n == 0 || (n == 1 && comp[0] == '.') {
        assert(n == 1 && comp[0] == '.' ==> comp@ =~= "."@);
        return;
    }
    if n == 2 && comp[0] == '.' && comp[1] == '.' {
        assert(comp@ =~= ".."@);
        if kept.len() > 0 {
            let _ = kept.pop();
            assert(kept@.map_values(|v: Vec<char>| v@) =~= before.drop_last());
        }
        return;
    }
    assert(comp@ != "."@ && comp@ != ".."@) by {
        if comp@ == "."@ {
            assert(comp@.len() == 1 && comp@[0] == '.');
        }
        if comp@ == ".."@ {
            assert(comp@.len() == 2 && comp@[0] == '.' && comp@[1] == '.');
        }
    }
    kept.push(comp);
    assert(kept@.map_values(|v: Vec<char>| v@) =~= before.push(comp@));
}


/// What `std::path::absolute` may return for `path`: an absolute path that, resolved
/// lexically, is `path` itself where that is absolute, and `path` taken from some
/// absolute directory (the current one) where it is relative.
pub open spec fn absolute_form_of(path: Seq<char>, abs: Seq<char>) -> bool {
    &&& is_absolute(abs)
    &&& is_absolute(path) ==> normalized_path(abs) == normalized_path(path)
    &&& !is_absolute(path) ==> exists|dir: Seq<char>|
        is_absolute(dir) && normalized_path(abs) == #[trigger] normalized_path(dir + "/"@ + path)
}

/// Whether `a` is what making `path` absolute and resolving it lexically may give.
pub open spec fn abs_result(path: Seq<char>, a: Seq<char>) -> bool {
    exists|abs: Seq<char>| absolute_form_of(path, abs) && a == #[trigger] normalized_path(abs)
}

/// Makes a path absolute through `std::path::absolute`, without touching the file system.
///
/// The result is `Ok(Ok(text))` with the absolute path, `Ok(Err(lossy))` where the
/// absolute path is not valid UTF-8 (it then holds the path with the invalid bytes
/// replaced), or `Err(message)` with the IO error's message.
/// Claimed, from the function's documentation: an empty path is refused; an absolute
/// path never needs the current directory and is returned with `.` components and
/// repeated separators removed, so it does not fail and stays valid UTF-8; a relative
/// path is appended to the current directory. Left unsaid: which directory that is,
/// and whether reading it fails.
#[verifier::external_body]
fn std_absolute(path: &str) -> (r: Result<Result<String, String>, String>)
    ensures
        path@.len() == 0 ==> r is Err,
        is_absolute(path@) ==> (r is Ok && r->Ok_0 is Ok),
        r matches Ok(Ok(abs)) ==> absolute_form_of(path@, abs@),
{
    match std::path::absolute(path) {
        Ok(p) => match p.into_os_string().into_string() {
            Ok(text) => Ok(Ok(text)),
            Err(raw) => Ok(Err(raw.to_string_lossy().into_owned())),
        },
        Err(e) => Err(e.to_string()),
    }
}

/// The path made absolute, with `.` and `..` resolved lexically: the form in which the
/// runc client passes every path to runc.
///
/// A relative path is taken from the current directory. An empty path, a current
/// directory that cannot be read and a result that is not valid UTF-8 are refused
/// with `InvalidPath`.
pub fn abs_path_buf(path: &str) -> (r: Result<String, Error>)
    ensures
        path@.len() == 0 ==> r is Err,
        is_absolute(path@) ==> (r matches Ok(a) && a@ == normalized_path(path@)),
        r matches Ok(a) ==> abs_result(path@, a@) && is_absolute(a@) && normalized_path(a@) == a@,
        r matches Err(e) ==> e is InvalidPath,
{
    match std_absolute(path) {
        Ok(Ok(abs)) => {
            let a = normalize_path(abs.as_str());
            assert(absolute_form_of(path@, abs@) && a@ == normalized_path(abs@));
            proof {
                law_normalized_is_normal(abs@);
                reveal_strlit("/");
                assert(normalized_path(abs@)[0] == '/');
            }
            Ok(a)
        },
        Ok(Err(lossy)) => {
            let shown = normalize_path(lossy.as_str());
            Err(Error::InvalidPath(String::from_str("invalid UTF-8 string: ").concat(shown.as_str())))
        },
        Err(msg) => Err(Error::InvalidPath(msg)),
    }
}

/// The path made absolute, as text; see [`abs_path_buf`].
pub fn abs_string(path: &str) -> (r: Result<String, Error>)
    ensures
        path@.len() == 0 ==> r is Err,
        is_absolute(path@) ==> (r matches Ok(a) && a@ == normalized_path(path@)),
        r matches Ok(a) ==> abs_result(path@, a@) && is_absolute(a@) && normalized_path(a@) == a@,
        r matches Err(e) ==> e is InvalidPath,
{
    abs_path_buf(path)
}

/// `path` joined onto `dir` as `Path::join` does: an absolute `path` replaces `dir`;
/// otherwise a separator is put between them unless `dir` is empty or already ends
/// with one.
pub open spec fn join_path(dir: Seq<char>, path: Seq<char>) -> Seq<char> {
    if is_absolute(path) {
        path
    } else if dir.len() == 0 || dir.last() == '/' {
        dir + path
    } else {
        dir + "/"@ + path
    }
}

/// The places looked at, in order, for an executable `name` along a search path
/// (`PATH`): `name` joined onto each of its `:`-separated entries.
pub open spec fn search_candidates(search_path: Seq<char>, name: Seq<char>) -> Seq<Seq<char>> {
    split_char(search_path, ':').map_values(|dir: Seq<char>| join_path(dir, name))
}


/// The pieces of `v` between occurrences of `c`.
pub fn split_exec(v: &Vec<char>, c: char) -> (r: Vec<Vec<char>>)
    ensures
        r@.map_values(|p: Vec<char>| p@) == split_char(v@, c),
{
    let ghost s = v@;
    let n = v.len();
    let mut done: Vec<Vec<char>> = Vec::new();
    let mut cur: Vec<char> = Vec::new();
    let mut i: usize = 0;
    proof {
        assert(s.take(0) =~= Seq::<char>::empty());
        assert(split_char(s.take(0), c) =~= seq![Seq::<char>::empty()]);
        assert(done@.map_values(|p: Vec<char>| p@) =~= split_char(s.take(0), c).drop_last());
    }
    while i < n
        invariant
            n == s.len(),
            s == v@,
            i <= n,
            split_char(s.take(i as int), c).len() >= 1,
            done@.map_values(|p: Vec<char>| p@) == split_char(s.take(i as int), c).drop_last(),
            cur@ == split_char(s.take(i as int), c).last(),
        decreases n - i,
    {
        proof {
            lemma_split_step(s, i as int, c);
            lemma_split_nonempty(s.take(i as int), c);
            lemma_split_nonempty(s.take(i + 1), c);
        }
        let ghost sp = split_char(s.take(i as int), c);
        if v[i] == c {
            let piece = cur;
            cur = Vec::new();
            done.push(piece);
            proof {
                let sp2 = split_char(s.take(i + 1), c);
                assert(sp2.drop_last() =~= sp);
                assert(sp.drop_last().push(sp.last()) =~= sp);
                assert(done@.map_values(|p: Vec<char>| p@) =~= sp2.drop_last());
                assert(cur@ =~= sp2.last());
            }
        } else {
            cur.push(v[i]);
            proof {
                let sp2 = split_char(s.take(i + 1), c);
                assert(sp2.drop_last() =~= sp.drop_last());
                assert(cur@ =~= sp2.last());
            }
        }
        i = i + 1;
    }
    proof {
        assert(s.take(n as int) =~= s);
        lemma_split_nonempty(s, c);
    }
    let ghost sp = split_char(s, c);
    done.push(cur);
    assert(done@.map_values(|p: Vec<char>| p@) =~= sp.drop_last().push(sp.last()));
    assert(sp.drop_last().push(sp.last()) =~= sp);
    done
}

/// `path` joined onto `dir`, as [`join_path`] says.
pub fn join_path_exec(dir: &Vec<char>, path: &Vec<char>) -> (r: Vec<char>)
    ensures
        r@ == join_path(dir@, path@),
{
    proof {
        reveal_strlit("/");
    }
    if path.len() > 0 && path[0] == '/' {
        return path.clone();
    }
    let mut out = dir.clone();
    if !(dir.len() == 0 || dir[dir.len() - 1] == '/') {
        out.push('/');
    }
    let ghost mid = out@;
    let m = path.len();
    let mut j: usize = 0;
    while j < m
        invariant
            m == path@.len(),
            j <= m,
            out@ == mid + path@.subrange(0, j as int),
        decreases m - j,
    {
        out.push(path[j]);
        j = j + 1;
        assert(out@ =~= mid + path@.subrange(0, j as int));
    }
    assert(path@.subrange(0, m as int) =~= path@);
    assert(out@ =~= join_path(dir@, path@));
    out
}

/// The places to look at, in order, for an executable `name` along the search path
/// `search_path`, as [`search_candidates`] lists them.
pub fn binary_path_candidates(search_path: &str, name: &str) -> (r: Vec<String>)
    ensures
        r@.map_values(|s: String| s@) == search_candidates(search_path@, name@),
{
    let dirs = split_exec(&crate::text::chars_of(search_path), ':');
    let name_chars = crate::text::chars_of(name);
    let ghost want = search_candidates(search_path@, name@);
    let mut out: Vec<String> = Vec::new();
    let n = dirs.len();
    let mut i: usize = 0;
    while i < n
        invariant
            n == dirs@.len(),
            i <= n,
            name_chars@ == name@,
            dirs@.map_values(|p: Vec<char>| p@) == split_char(search_path@, ':'),
            want == search_candidates(search_path@, name@),
            out@.map_values(|s: String| s@) == want.take(i as int),
        decreases n - i,
    {
        let joined = join_path_exec(&dirs[i], &name_chars);
        let s = crate::text::string_of(joined.as_slice());
        let ghost before = out@;
        out.push(s);
        assert(out@.map_values(|s: String| s@) =~= before.map_values(|s: String| s@).push(s@));
        assert(want.take(i + 1) =~= want.take(i as int).push(want[i as int]));
        proof {
            assert(dirs@.map_values(|p: Vec<char>| p@)[i as int] == dirs@[i as int]@);
            assert(want.len() == n);
            assert(want[i as int] == join_path(dirs@[i as int]@, name@));
            assert(out@.map_values(|s: String| s@) =~= want.take(i + 1));
        }
        i = i + 1;
    }
    assert(want.take(n as int) =~= want);
    out
}


/// A component that resolution keeps: not empty, not `.` or `..`, without a separator.
pub open spec fn kept_component(p: Seq<char>) -> bool {
    p.len() > 0 && p != "."@ && p != ".."@ && !p.contains('/')
}

proof fn lemma_split_pieces_lack_sep(s: Seq<char>, c: char)
    ensures
        forall|i: int| 0 <= i < split_char(s, c).len() ==> !(#[trigger] split_char(s, c)[i]).contains(c),
    decreases s.len(),
{
    lemma_split_nonempty(s, c);
    if s.len() > 0 {
        let p = split_char(s.drop_last(), c);
        lemma_split_pieces_lack_sep(s.drop_last(), c);
        lemma_split_nonempty(s.drop_last(), c);
        if s.last() != c {
            let q = split_char(s, c);
            assert forall|i: int| 0 <= i < q.len() implies !(#[trigger] q[i]).contains(c) by {
                if i == q.len() - 1 {
                    let l = p.last().push(s.last());
                    assert(q[i] == l);
                    if l.contains(c) {
                        let k = choose|k: int| 0 <= k < l.len() && l[k] == c;
                        if k < l.len() - 1 {
                            assert(p.last()[k] == c);
                            assert(p.last().contains(c));
                            assert(p[p.len() - 1] == p.last());
                        }
                    }
                } else {
                    assert(q[i] == p[i]);
                }
            }
        } else {
            let q = split_char(s, c);
            assert forall|i: int| 0 <= i < q.len() implies !(#[trigger] q[i]).contains(c) by {
                if i < q.len() - 1 {
                    assert(q[i] == p[i]);
                }
            }
        }
    }
}

proof fn lemma_resolve_keeps(comps: Seq<Seq<char>>)
    requires
        forall|i: int| 0 <= i < comps.len() ==> !(#[trigger] comps[i]).contains('/'),
    ensures
        forall|i: int| 0 <= i < resolve(comps).len() ==> kept_component(#[trigger] resolve(comps)[i]),
    decreases comps.len(),
{
    if comps.len() > 0 {
        let d = comps.drop_last();
        assert forall|i: int| 0 <= i < d.len() implies !(#[trigger] d[i]).contains('/') by {
            assert(d[i] == comps[i]);
        }
        lemma_resolve_keeps(d);
        let k = resolve(d);
        let last = comps.last();
        assert(!comps[comps.len() - 1].contains('/'));
        let r = resolve(comps);
        assert(r == step(k, last));
        assert forall|i: int| 0 <= i < r.len() implies kept_component(#[trigger] r[i]) by {
            if last.len() == 0 || last == "."@ {
            } else if last == ".."@ {
                if k.len() > 0 {
                    assert(r[i] == k[i]);
                }
            } else {
                if i < k.len() {
                    assert(r[i] == k[i]);
                }
            }
        }
    }
}

proof fn lemma_resolve_of_kept(r: Seq<Seq<char>>)
    requires
        forall|i: int| 0 <= i < r.len() ==> kept_component(#[trigger] r[i]),
    ensures
        resolve(r) == r,
        resolve(seq![Seq::<char>::empty()] + r) == r,
    decreases r.len(),
{
    if r.len() == 0 {
        assert(seq![Seq::<char>::empty()] + r =~= seq![Seq::<char>::empty()]);
        assert(seq![Seq::<char>::empty()].drop_last() =~= Seq::<Seq<char>>::empty());
    } else {
        let d = r.drop_last();
        assert forall|i: int| 0 <= i < d.len() implies kept_component(#[trigger] d[i]) by {
            assert(d[i] == r[i]);
        }
        lemma_resolve_of_kept(d);
        assert(kept_component(r[r.len() - 1]));
        assert(d.push(r.last()) =~= r);
        let e = seq![Seq::<char>::empty()] + r;
        assert(e.drop_last() =~= seq![Seq::<char>::empty()] + d);
        assert(e.last() == r.last());
    }
}

proof fn lemma_split_append_piece(a: Seq<char>, b: Seq<char>, c: char)
    requires
        !b.contains(c),
    ensures
        split_char(a + seq![c] + b, c) == split_char(a, c).push(b),
    decreases b.len(),
{
    let s = a + seq![c] + b;
    if b.len() == 0 {
        assert(s.drop_last() =~= a);
        assert(s.last() == c);
        assert(b =~= Seq::<char>::empty());
    } else {
        let bd = b.drop_last();
        assert(!bd.contains(c)) by {
            if bd.contains(c) {
                let k = choose|k: int| 0 <= k < bd.len() && bd[k] == c;
                assert(b[k] == c);
            }
        }
        lemma_split_append_piece(a, bd, c);
        assert(s.drop_last() =~= a + seq![c] + bd);
        assert(s.last() == b.last());
        assert(b.last() != c) by {
            assert(b[b.len() - 1] == b.last());
        }
        lemma_split_nonempty(a, c);
        assert(bd.push(b.last()) =~= b);
        assert(split_char(a, c).push(bd).update(split_char(a, c).len() as int, bd.push(b.last())) =~= split_char(
            a,
            c,
        ).push(b));
    }
}

proof fn lemma_split_single(b: Seq<char>, c: char)
    requires
        !b.contains(c),
    ensures
        split_char(b, c) == seq![b],
    decreases b.len(),
{
    if b.len() > 0 {
        let bd = b.drop_last();
        assert(!bd.contains(c)) by {
            if bd.contains(c) {
                let k = choose|k: int| 0 <= k < bd.len() && bd[k] == c;
                assert(b[k] == c);
            }
        }
        lemma_split_single(bd, c);
        assert(b.last() != c) by {
            assert(b[b.len() - 1] == b.last());
        }
        assert(bd.push(b.last()) =~= b);
        assert(seq![bd].update(0, bd.push(b.last())) =~= seq![b]);
    } else {
        assert(split_char(b, c) =~= seq![Seq::<char>::empty()]);
        assert(b =~= Seq::<char>::empty());
    }
}

proof fn lemma_split_join(a: Seq<char>, r: Seq<Seq<char>>)
    requires
        r.len() > 0,
        forall|i: int| 0 <= i < r.len() ==> !(#[trigger] r[i]).contains('/'),
    ensures
        split_char(a + "/"@ + join(r, "/"@), '/') == split_char(a, '/') + r,
        split_char(join(r, "/"@), '/') == r,
    decreases r.len(),
{
    reveal_strlit("/");
    if r.len() == 1 {
        assert(join(r, "/"@) == r[0]);
        lemma_split_append_piece(a, r[0], '/');
        assert(a + "/"@ + r[0] =~= a + seq!['/'] + r[0]);
        assert(split_char(a, '/').push(r[0]) =~= split_char(a, '/') + r);
        lemma_split_single(r[0], '/');
        assert(seq![r[0]] =~= r);
    } else {
        let d = r.drop_last();
        assert forall|i: int| 0 <= i < d.len() implies !(#[trigger] d[i]).contains('/') by {
            assert(d[i] == r[i]);
        }
        lemma_split_join(a, d);
        assert(!r[r.len() - 1].contains('/'));
        let jd = join(d, "/"@);
        assert(join(r, "/"@) == jd + "/"@ + r.last());
        lemma_split_append_piece(a + "/"@ + jd, r.last(), '/');
        assert(a + "/"@ + join(r, "/"@) =~= (a + "/"@ + jd) + seq!['/'] + r.last());
        assert((split_char(a, '/') + d).push(r.last()) =~= split_char(a, '/') + r);
        lemma_split_append_piece(jd, r.last(), '/');
        assert(join(r, "/"@) =~= jd + seq!['/'] + r.last());
        assert(d.push(r.last()) =~= r);
    }
}

/// Resolving a resolved path changes nothing: what [`normalize_path`] and
/// [`abs_path_buf`] give is in normal form.
pub proof fn law_normalized_is_normal(p: Seq<char>)
    ensures
        normalized_path(normalized_path(p)) == normalized_path(p),
{
    reveal_strlit("/");
    let comps = split_char(p, '/');
    lemma_split_pieces_lack_sep(p, '/');
    lemma_resolve_keeps(comps);
    let r = resolve(comps);
    let q = join(r, "/"@);
    let n = normalized_path(p);
    assert forall|i: int| 0 <= i < r.len() implies !(#[trigger] r[i]).contains('/') by {
        assert(kept_component(r[i]));
    }
    lemma_resolve_of_kept(r);
    if r.len() > 0 {
        lemma_split_join(Seq::empty(), r);
        assert(Seq::<char>::empty() + "/"@ + q =~= "/"@ + q);
        assert(split_char(Seq::<char>::empty(), '/') =~= seq![Seq::<char>::empty()]);
        lemma_join_starts(r);
    }
    if is_absolute(p) {
        assert(n == "/"@ + q);
        assert(is_absolute(n));
        if r.len() > 0 {
            assert(split_char(n, '/') == seq![Seq::<char>::empty()] + r);
        } else {
            assert(q =~= Seq::<char>::empty());
            assert(n =~= seq!['/']);
            assert(n.drop_last() =~= Seq::<char>::empty());
            assert(split_char(Seq::<char>::empty(), '/') =~= seq![Seq::<char>::empty()]);
            assert(split_char(n, '/') =~= seq![Seq::<char>::empty(), Seq::<char>::empty()]);
            let e = seq![Seq::<char>::empty(), Seq::<char>::empty()];
            assert(e.drop_last() =~= seq![Seq::<char>::empty()]);
            assert(seq![Seq::<char>::empty()].drop_last() =~= Seq::<Seq<char>>::empty());
            assert(resolve(e) =~= Seq::<Seq<char>>::empty());
            assert(join(Seq::<Seq<char>>::empty(), "/"@) =~= Seq::<char>::empty());
        }
    } else {
        assert(n =~= q);
        if r.len() > 0 {
            assert(!is_absolute(n));
        } else {
            assert(n =~= Seq::<char>::empty());
            assert(split_char(n, '/') =~= seq![Seq::<char>::empty()]);
            assert(seq![Seq::<char>::empty()].drop_last() =~= Seq::<Seq<char>>::empty());
            assert(resolve(seq![Seq::<char>::empty()]) =~= Seq::<Seq<char>>::empty());
        }
    }
}

/// A join of kept components starts with the first one's first character.
proof fn lemma_join_starts(r: Seq<Seq<char>>)
    requires
        r.len() > 0,
        forall|i: int| 0 <= i < r.len() ==> kept_component(#[trigger] r[i]),
    ensures
        join(r, "/"@).len() > 0,
        join(r, "/"@)[0] == r[0][0],
    decreases r.len(),
{
    assert(kept_component(r[0]));
    if r.len() > 1 {
        let d = r.drop_last();
        assert forall|i: int| 0 <= i < d.len() implies kept_component(#[trigger] d[i]) by {
            assert(d[i] == r[i]);
        }
        lemma_join_starts(d);
        assert(d[0] == r[0]);
    }
}

} // verus!
