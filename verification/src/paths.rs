//! Joining of `/`-separated paths held as plain strings.
use vstd::prelude::*;

verus! {

/// The path separator.
pub open spec fn is_sep(c: char) -> bool {
    c == '/'
}

/// Whether `path` is absolute: on Unix, whether it starts with the root `/`.
pub open spec fn spec_is_absolute(path: Seq<char>) -> bool {
    path.len() > 0 && is_sep(path[0])
}

/// Whether `path` is absolute (see [`spec_is_absolute`]).
pub fn is_absolute(path: &str) -> (b: bool)
    ensures
        b == spec_is_absolute(path@),
        b <==> (path@.len() > 0 && path@[0] == '/'),
{
    path.unicode_len() > 0 && path.get_char(0) == '/'
}

/// `base` joined with `part`, in the way a Unix path buffer pushes a path:
/// an absolute `part` replaces `base`; otherwise a separator is put between
/// them unless `base` is empty or already ends in one.
pub open spec fn spec_join(base: Seq<char>, part: Seq<char>) -> Seq<char> {
    if part.len() > 0 && is_sep(part[0]) {
        part
    } else if base.len() > 0 && !is_sep(base.last()) {
        base + seq!['/'] + part
    } else {
        base + part
    }
}

/// Joining is associative: joining `b` then `c` onto `a` gives the path
/// that joining `c` onto `b`, then the result onto `a`, gives. So the
/// program path `root/parent/child` can be read either way.
pub proof fn lemma_join_assoc(a: Seq<char>, b: Seq<char>, c: Seq<char>)
    ensures
        spec_join(spec_join(a, b), c) == spec_join(a, spec_join(b, c)),
{
    let ab = spec_join(a, b);
    let bc = spec_join(b, c);
    if c.len() > 0 && is_sep(c[0]) {
        assert(bc == c);
    } else if b.len() > 0 && is_sep(b[0]) {
        assert(ab == b);
        if b.len() > 0 && !is_sep(b.last()) {
            assert(bc =~= b + seq!['/'] + c);
        } else {
            assert(bc =~= b + c);
        }
        assert(bc[0] == b[0]);
    } else if b.len() > 0 {
        assert(bc.len() > 0 && bc[0] == b[0]);
        if a.len() > 0 && !is_sep(a.last()) {
            assert(ab =~= a + seq!['/'] + b);
        } else {
            assert(ab =~= a + b);
        }
        assert(ab.last() == b.last());
        assert(ab.len() > 0);
        if !is_sep(b.last()) {
            assert(spec_join(ab, c) =~= spec_join(a, bc));
        } else {
            assert(spec_join(ab, c) =~= spec_join(a, bc));
        }
    } else {
        assert(b =~= Seq::<char>::empty());
        assert(bc =~= c);
        if a.len() > 0 && !is_sep(a.last()) {
            assert(ab =~= a + seq!['/']);
            assert(ab.last() == '/');
            assert(spec_join(ab, c) =~= spec_join(a, bc));
        } else {
            assert(ab =~= a);
        }
    }
}

/// A path is absolute exactly when it starts with `/`, whatever its length
/// or the rest of it; the empty path is not absolute.
pub proof fn lemma_absolute_iff_rooted(p: Seq<char>)
    ensures
        spec_is_absolute(p) <==> (p.len() > 0 && p[0] == '/'),
        spec_is_absolute(seq!['/'] + p),
        !spec_is_absolute(Seq::<char>::empty()),
{
    assert((seq!['/'] + p)[0] == '/');
}

/// What a join gives, case by case: an absolute part replaces the base; a
/// relative part is put after the base with one `/` between them, unless
/// the base is empty or already ends in `/`. So the joined path always ends
/// with the part, and joining onto an absolute base gives an absolute path.
pub proof fn lemma_join_cases(base: Seq<char>, part: Seq<char>)
    ensures
        part.len() > 0 && part[0] == '/' ==> spec_join(base, part) == part,
        !(part.len() > 0 && part[0] == '/') && base.len() > 0 && base[base.len() - 1] != '/'
            ==> spec_join(base, part) == base + seq!['/'] + part,
        !(part.len() > 0 && part[0] == '/') && (base.len() == 0 || base[base.len() - 1] == '/')
            ==> spec_join(base, part) == base + part,
        spec_join(base, part).len() >= part.len(),
        spec_join(base, part).subrange(
            spec_join(base, part).len() - part.len(),
            spec_join(base, part).len() as int,
        ) == part,
        base.len() > 0 && base[0] == '/' ==> spec_join(base, part).len() > 0 && spec_join(
            base,
            part,
        )[0] == '/',
{
    let j = spec_join(base, part);
    assert(j.subrange(j.len() - part.len(), j.len() as int) =~= part);
    if base.len() > 0 && base[0] == '/' && !(part.len() > 0 && part[0] == '/') {
        assert(j[0] == base[0]);
    }
}

/// Joins `part` onto `base` (see [`spec_join`]).
pub fn join_path(base: &str, part: &str) -> (joined: String)
    ensures
        joined@ == spec_join(base@, part@),
{
    let plen = part.unicode_len();
    if plen > 0 && part.get_char(0) == '/' {
        return part.to_string();
    }
    let blen = base.unicode_len();
    let mut out = base.to_string();
    if blen > 0 && base.get_char(blen - 1) != '/' {
        proof {
            reveal_strlit("/");
        }
        out.append("/");
    }
    out.append(part);
    out
}

} // verus!
