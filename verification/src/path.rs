//! Unix paths as character sequences: trimming, `~` expansion, joining, and
//! splitting into components the way `std::path::Path::components` does.
use vstd::prelude::*;

verus! {

// ---------------------------------------------------------------------------
// Characters and strings
// ---------------------------------------------------------------------------

/// The characters with the Unicode `White_Space` property, which is what
/// `char::is_whitespace` and `str::trim` go by.
pub open spec fn is_white_space(c: char) -> bool {
    let n = c as u32;
    ||| 0x9 <= n <= 0xd
    ||| n == 0x20
    ||| n == 0x85
    ||| n == 0xa0
    ||| n == 0x1680
    ||| 0x2000 <= n <= 0x200a
    ||| n == 0x2028
    ||| n == 0x2029
    ||| n == 0x202f
    ||| n == 0x205f
    ||| n == 0x3000
}

pub fn white_space(c: char) -> (r: bool)
    ensures
        r == is_white_space(c),
{
    let n = c as u32;
    (0x9 <= n && n <= 0xd) || n == 0x20 || n == 0x85 || n == 0xa0 || n == 0x1680 || (0x2000 <= n
        && n <= 0x200a) || n == 0x2028 || n == 0x2029 || n == 0x202f || n == 0x205f || n == 0x3000
}

/// `s` without its leading white space.
pub open spec fn trim_start(s: Seq<char>) -> Seq<char>
    decreases s.len(),
{
    if s.len() > 0 && is_white_space(s[0]) {
        trim_start(s.drop_first())
    } else {
        s
    }
}

/// `s` without its trailing white space.
pub open spec fn trim_end(s: Seq<char>) -> Seq<char>
    decreases s.len(),
{
    if s.len() > 0 && is_white_space(s.last()) {
        trim_end(s.drop_last())
    } else {
        s
    }
}

/// `s` without leading and trailing white space, as `str::trim` gives it.
pub open spec fn trim(s: Seq<char>) -> Seq<char> {
    trim_end(trim_start(s))
}

/// `s` without its leading `/` characters, as `str::trim_start_matches('/')`.
pub open spec fn strip_leading_slashes(s: Seq<char>) -> Seq<char>
    decreases s.len(),
{
    if s.len() > 0 && s[0] == '/' {
        strip_leading_slashes(s.drop_first())
    } else {
        s
    }
}

/// `String::push`: appends the character `c` to `s`, as its documentation
/// says; nothing else of `s` changes.
#[verifier::external_body]
pub(crate) fn push_char(s: &mut String, c: char)
    ensures
        final(s)@ == old(s)@.push(c),
{
    s.push(c);
}

/// The characters of `s`, in order.
pub fn chars_of(s: &str) -> (v: Vec<char>)
    ensures
        v@ == s@,
{
    let mut v: Vec<char> = Vec::new();
    for c in it: s.chars()
        invariant
            v@ == it.seq().take(it.index()),
    {
        v.push(c);
    }
    v
}

/// A `String` holding the characters of `v[lo..hi]`.
pub fn string_of(v: &Vec<char>, lo: usize, hi: usize) -> (s: String)
    requires
        lo <= hi <= v.len(),
    ensures
        s@ == v@.subrange(lo as int, hi as int),
{
    let mut s = String::new();
    let mut i = lo;
    while i < hi
        invariant
            lo <= i <= hi <= v.len(),
            s@ == v@.subrange(lo as int, i as int),
        decreases hi - i,
    {
        push_char(&mut s, v[i]);
        assert(v@.subrange(lo as int, i + 1) =~= v@.subrange(lo as int, i as int).push(v@[i as int]));
        i += 1;
    }
    s
}

/// The characters of `v[lo..hi]`.
pub fn chars_between(v: &Vec<char>, lo: usize, hi: usize) -> (r: Vec<char>)
    requires
        lo <= hi <= v.len(),
    ensures
        r@ == v@.subrange(lo as int, hi as int),
{
    let mut r: Vec<char> = Vec::new();
    let mut i = lo;
    while i < hi
        invariant
            lo <= i <= hi <= v.len(),
            r@ == v@.subrange(lo as int, i as int),
        decreases hi - i,
    {
        r.push(v[i]);
        assert(v@.subrange(lo as int, i + 1) =~= v@.subrange(lo as int, i as int).push(v@[i as int]));
        i += 1;
    }
    r
}

/// Whether two character vectors hold the same characters.
pub fn same_chars(a: &Vec<char>, b: &Vec<char>) -> (r: bool)
    ensures
        r == (a@ == b@),
{
    if a.len() != b.len() {
        return false;
    }
    let mut i: usize = 0;
    while i < a.len()
        invariant
            a.len() == b.len(),
            i <= a.len(),
            forall|k: int| 0 <= k < i ==> a@[k] == b@[k],
        decreases a.len() - i,
    {
        if a[i] != b[i] {
            return false;
        }
        i += 1;
    }
    assert(a@ =~= b@);
    true
}

proof fn lemma_trim_start_skip(s: Seq<char>, i: int)
    requires
        0 <= i < s.len(),
        is_white_space(s[i]),
    ensures
        trim_start(s.skip(i)) == trim_start(s.skip(i + 1)),
{
    assert(s.skip(i).drop_first() =~= s.skip(i + 1));
}

proof fn lemma_trim_end_take(s: Seq<char>, lo: int, j: int)
    requires
        0 <= lo < j <= s.len(),
        is_white_space(s[j - 1]),
    ensures
        trim_end(s.subrange(lo, j)) == trim_end(s.subrange(lo, j - 1)),
{
    assert(s.subrange(lo, j).drop_last() =~= s.subrange(lo, j - 1));
}

/// The bounds `lo..hi` of `trim(v)` inside `v`.
pub fn trim_bounds(v: &Vec<char>) -> (r: (usize, usize))
    ensures
        r.0 <= r.1 <= v.len(),
        v@.subrange(r.0 as int, r.1 as int) == trim(v@),
{
    let n = v.len();
    let mut i: usize = 0;
    assert(v@.skip(0) =~= v@);
    while i < n && white_space(v[i])
        invariant
            n == v.len(),
            i <= n,
            trim_start(v@) == trim_start(v@.skip(i as int)),
        decreases n - i,
    {
        proof {
            lemma_trim_start_skip(v@, i as int);
        }
        i += 1;
    }
    assert(trim_start(v@) == v@.skip(i as int));
    let mut j: usize = n;
    assert(v@.subrange(i as int, n as int) =~= v@.skip(i as int));
    while j > i && white_space(v[j - 1])
        invariant
            n == v.len(),
            i <= j <= n,
            trim(v@) == trim_end(v@.subrange(i as int, j as int)),
        decreases j - i,
    {
        proof {
            lemma_trim_end_take(v@, i as int, j as int);
        }
        j -= 1;
    }
    (i, j)
}


// ---------------------------------------------------------------------------
// Path components
// ---------------------------------------------------------------------------

/// The characters of each vector, as sequences.
pub open spec fn views(v: Seq<Vec<char>>) -> Seq<Seq<char>> {
    v.map_values(|x: Vec<char>| x@)
}

/// Scans `p` left to right, splitting at every `/`: the pieces closed so far
/// and the piece still open.
pub open spec fn scan(p: Seq<char>) -> (Seq<Seq<char>>, Seq<char>)
    decreases p.len(),
{
    if p.len() == 0 {
        (Seq::empty(), Seq::empty())
    } else {
        let prev = scan(p.drop_last());
        if p.last() == '/' {
            (prev.0.push(prev.1), Seq::empty())
        } else {
            (prev.0, prev.1.push(p.last()))
        }
    }
}

/// The pieces of `p` between separators, empty ones included.
pub open spec fn pieces(p: Seq<char>) -> Seq<Seq<char>> {
    scan(p).0.push(scan(p).1)
}

/// A piece that names a directory: neither empty (a repeated or trailing
/// separator) nor `.`.
pub open spec fn is_normal(piece: Seq<char>) -> bool {
    piece.len() > 0 && piece != seq!['.']
}

/// The pieces of `ps` that name a directory, in order.
pub open spec fn normal_parts(ps: Seq<Seq<char>>) -> Seq<Seq<char>>
    decreases ps.len(),
{
    if ps.len() == 0 {
        Seq::empty()
    } else {
        let prev = normal_parts(ps.drop_last());
        if is_normal(ps.last()) {
            prev.push(ps.last())
        } else {
            prev
        }
    }
}

/// Whether `p` starts at the root.
pub open spec fn has_root(p: Seq<char>) -> bool {
    p.len() > 0 && p[0] == '/'
}

/// Whether `p` is relative and starts with the piece `.`.
pub open spec fn starts_with_cur_dir(p: Seq<char>) -> bool {
    !has_root(p) && p.len() > 0 && p[0] == '.' && (p.len() == 1 || p[1] == '/')
}

/// The components of a Unix path, as `Path::components` documents them:
/// repeated separators are ignored, `.` is normalized away except at the
/// start of a relative path, and a trailing separator is ignored. The root
/// is the component `/` and a leading `.` the component `.`; no directory
/// name can be either, so equal components are equal sequences.
pub open spec fn components(p: Seq<char>) -> Seq<Seq<char>> {
    let head = if has_root(p) {
        seq![seq!['/']]
    } else if starts_with_cur_dir(p) {
        seq![seq!['.']]
    } else {
        Seq::empty()
    };
    head + normal_parts(pieces(p))
}

/// A trailing separator is normalized away: `/a/b/` has the components of
/// `/a/b`.
pub proof fn trailing_separator_is_ignored(p: Seq<char>)
    requires
        p.len() > 0,
    ensures
        components(p.push('/')) == components(p),
{
    let q = p.push('/');
    assert(q.drop_last() =~= p);
    assert(pieces(q) =~= pieces(p).push(Seq::empty()));
    assert(pieces(q).drop_last() =~= pieces(p));
    assert(normal_parts(pieces(q)) == normal_parts(pieces(p)));
    assert(has_root(q) == has_root(p));
    assert(starts_with_cur_dir(q) == starts_with_cur_dir(p));
}

pub fn is_normal_piece(piece: &Vec<char>) -> (r: bool)
    ensures
        r == is_normal(piece@),
{
    if piece.len() == 0 {
        false
    } else if piece.len() == 1 && piece[0] == '.' {
        assert(piece@ =~= seq!['.']);
        false
    } else {
        assert(piece@.len() != 1 ==> piece@ != seq!['.']);
        true
    }
}

/// The components of the path `p`.
pub fn path_components(p: &Vec<char>) -> (r: Vec<Vec<char>>)
    ensures
        views(r@) == components(p@),
{
    let n = p.len();
    let mut done: Vec<Vec<char>> = Vec::new();
    if n > 0 && p[0] == '/' {
        let mut root: Vec<char> = Vec::new();
        root.push('/');
        assert(root@ =~= seq!['/']);
        done.push(root);
    } else if n > 0 && p[0] == '.' && (n == 1 || p[1] == '/') {
        let mut here: Vec<char> = Vec::new();
        here.push('.');
        assert(here@ =~= seq!['.']);
        done.push(here);
    }
    let ghost head = views(done@);
    proof {
        if has_root(p@) {
            assert(head =~= seq![seq!['/']]);
        } else if starts_with_cur_dir(p@) {
            assert(head =~= seq![seq!['.']]);
        } else {
            assert(head =~= Seq::<Seq<char>>::empty());
        }
    }
    let mut cur: Vec<char> = Vec::new();
    let ghost mut closed: Seq<Seq<char>> = Seq::empty();
    let mut i: usize = 0;
    assert(p@.take(0) =~= Seq::<char>::empty());
    assert(views(done@) =~= head + normal_parts(closed));
    while i < n
        invariant
            n == p.len(),
            i <= n,
            scan(p@.take(i as int)) == (closed, cur@),
            views(done@) == head + normal_parts(closed),
            components(p@) == head + normal_parts(pieces(p@)),
        decreases n - i,
    {
        let c = p[i];
        assert(p@.take(i + 1).drop_last() =~= p@.take(i as int));
        if c == '/' {
            let keep = is_normal_piece(&cur);
            proof {
                assert(closed.push(cur@).drop_last() =~= closed);
                closed = closed.push(cur@);
            }
            if keep {
                let ghost before = done@;
                done.push(cur);
                assert(views(done@) =~= views(before).push(closed.last()));
            }
            cur = Vec::new();
        } else {
            cur.push(c);
        }
        i += 1;
    }
    assert(p@.take(n as int) =~= p@);
    let keep = is_normal_piece(&cur);
    assert(pieces(p@).drop_last() =~= closed);
    if keep {
        let ghost before = done@;
        let ghost last = cur@;
        done.push(cur);
        assert(views(done@) =~= views(before).push(last));
    }
    assert(views(done@) =~= head + normal_parts(pieces(p@)));
    done
}


// ---------------------------------------------------------------------------
// Absolute paths
// ---------------------------------------------------------------------------

/// `base` joined with `rest`, as `Path::join` does it on Unix: an absolute
/// `rest` replaces `base`; otherwise a separator is put between them unless
/// `base` is empty or already ends with one.
pub open spec fn join(base: Seq<char>, rest: Seq<char>) -> Seq<char> {
    if has_root(rest) {
        rest
    } else if base.len() > 0 && base.last() != '/' {
        base + seq!['/'] + rest
    } else {
        base + rest
    }
}

/// The directory that a rule's `path` names, given the user's home
/// directory: the path is trimmed; an empty one names nothing; `~` and
/// `~/...` are expanded with `home` (and name nothing when it is unknown or
/// not absolute); `~user` names nothing; otherwise only an absolute path
/// names a directory. What a path names is thus always absolute.
pub open spec fn resolved_rule_path(path: Seq<char>, home: Option<Seq<char>>) -> Option<Seq<char>> {
    let t = trim(path);
    if t.len() == 0 {
        None
    } else if t[0] == '~' {
        let rest = t.drop_first();
        if rest.len() == 0 || rest[0] == '/' {
            match home {
                Some(h) => if has_root(h) {
                    Some(join(h, strip_leading_slashes(rest)))
                } else {
                    None
                },
                None => None,
            }
        } else {
            None
        }
    } else if t[0] == '/' {
        Some(t)
    } else {
        None
    }
}

/// The characters of an optional character vector.
pub open spec fn opt_chars(v: Option<&Vec<char>>) -> Option<Seq<char>> {
    match v {
        Some(x) => Some(x@),
        None => None,
    }
}

/// A rule path never names a relative directory, which would follow
/// whatever directory the terminal is in: what it resolves to is absolute.
pub proof fn resolved_rule_path_is_absolute(path: Seq<char>, home: Option<Seq<char>>)
    ensures
        resolved_rule_path(path, home) matches Some(p) ==> has_root(p),
{
    let t = trim(path);
    if t.len() > 0 && t[0] == '~' {
        let rest = strip_leading_slashes(t.drop_first());
        if let Some(h) = home {
            let j = join(h, rest);
            if has_root(h) && !has_root(rest) {
                assert(j[0] == h[0]);
            }
        }
    }
}

/// An absolute path without surrounding white space names itself.
pub proof fn absolute_path_names_itself(p: Seq<char>, home: Option<Seq<char>>)
    requires
        p.len() > 0,
        p[0] == '/',
        !is_white_space(p.last()),
    ensures
        resolved_rule_path(p, home) == Some(p),
{
    assert(trim_start(p) == p);
    assert(trim_end(p) == p);
}

/// `~/rest` (with `rest` not starting with `/` and no trailing white space)
/// names `rest` inside an absolute home directory, with one `/` between
/// them; with no home directory, or a relative one, it names nothing.
pub proof fn tilde_expands_into_home(rest: Seq<char>, home: Option<Seq<char>>)
    requires
        rest.len() > 0 ==> rest[0] != '/' && !is_white_space(rest.last()),
    ensures
        ({
            let path = seq!['~', '/'] + rest;
            match home {
                Some(h) if has_root(h) => resolved_rule_path(path, home) == Some(
                    if h.last() == '/' {
                        h + rest
                    } else {
                        h + seq!['/'] + rest
                    },
                ),
                _ => resolved_rule_path(path, home) is None,
            }
        }),
{
    let path = seq!['~', '/'] + rest;
    assert(path[0] == '~');
    assert(path.last() == if rest.len() > 0 {
        rest.last()
    } else {
        '/'
    });
    assert(trim_start(path) == path);
    assert(trim_end(path) == path);
    let after = path.drop_first();
    assert(after =~= seq!['/'] + rest);
    assert(after.drop_first() =~= rest);
    assert(strip_leading_slashes(rest) == rest);
    assert(strip_leading_slashes(after) == strip_leading_slashes(rest));
}

proof fn lemma_strip_skip(s: Seq<char>, i: int)
    requires
        0 <= i < s.len(),
        s[i] == '/',
    ensures
        strip_leading_slashes(s.subrange(i, s.len() as int)) == strip_leading_slashes(
            s.subrange(i + 1, s.len() as int),
        ),
{
    assert(s.subrange(i, s.len() as int).drop_first() =~= s.subrange(i + 1, s.len() as int));
}

/// The directory that the rule path `path` names; see [`resolved_rule_path`].
pub fn resolve_rule_path(path: &Vec<char>, home: Option<&Vec<char>>) -> (r: Option<Vec<char>>)
    ensures
        r matches Some(v) ==> resolved_rule_path(path@, opt_chars(home)) == Some(v@),
        r is None ==> resolved_rule_path(path@, opt_chars(home)) is None,
{
    let (lo, hi) = trim_bounds(path);
    let ghost t = trim(path@);
    if lo == hi {
        return None;
    }
    assert(t[0] == path@[lo as int]);
    if path[lo] == '~' {
        let k = lo + 1;
        let ghost rest = t.drop_first();
        assert(rest =~= path@.subrange(k as int, hi as int));
        if k == hi || path[k] == '/' {
            match home {
                None => None,
                Some(h) => {
                    if h.len() == 0 || h[0] != '/' {
                        return None;
                    }
                    let mut s = k;
                    let ghost seg = path@.subrange(0, hi as int);
                    assert(rest =~= seg.subrange(k as int, hi as int));
                    while s < hi && path[s] == '/'
                        invariant
                            k <= s <= hi <= path.len(),
                            seg == path@.subrange(0, hi as int),
                            strip_leading_slashes(rest) == strip_leading_slashes(
                                seg.subrange(s as int, hi as int),
                            ),
                        decreases hi - s,
                    {
                        proof {
                            lemma_strip_skip(seg, s as int);
                        }
                        s += 1;
                    }
                    let ghost tail = seg.subrange(s as int, hi as int);
                    assert(strip_leading_slashes(rest) == tail);
                    let mut out = chars_between(h, 0, h.len());
                    assert(out@ =~= h@);
                    if h.len() > 0 && h[h.len() - 1] != '/' {
                        out.push('/');
                    }
                    let ghost with_sep = out@;
                    let mut j = s;
                    while j < hi
                        invariant
                            s <= j <= hi <= path.len(),
                            out@ == with_sep + path@.subrange(s as int, j as int),
                        decreases hi - j,
                    {
                        out.push(path[j]);
                        assert(path@.subrange(s as int, j + 1) =~= path@.subrange(s as int, j as int).push(path@[j as int]));
                        j += 1;
                    }
                    assert(tail =~= path@.subrange(s as int, hi as int));
                    assert(!has_root(tail));
                    assert(out@ =~= join(h@, tail));
                    Some(out)
                },
            }
        } else {
            None
        }
    } else if path[lo] == '/' {
        Some(chars_between(path, lo, hi))
    } else {
        None
    }
}

} // verus!
