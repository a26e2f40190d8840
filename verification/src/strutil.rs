use vstd::prelude::*;

verus! {

/// String equality over views: `&str` has no specified `==`, so compare
/// through owned strings, whose equality vstd specifies.
pub fn str_eq(a: &str, b: &str) -> (r: bool)
    ensures
        r == (a@ == b@),
{
    let a_owned: String = a.to_owned();
    let b_owned: String = b.to_owned();
    a_owned == b_owned
}

/// `pattern` occurs somewhere in `s` as a contiguous run.
pub open spec fn spec_contains(s: Seq<char>, pattern: Seq<char>) -> bool {
    exists|i: int|
        0 <= i && i + pattern.len() <= s.len() && #[trigger] s.subrange(i, i + pattern.len())
            == pattern
}

/// Whether `pattern` stands in `s` at position `i` exactly.
fn matches_at(s: &str, pattern: &str, i: usize) -> (r: bool)
    requires
        i + pattern@.len() <= s@.len(),
    ensures
        r == (s@.subrange(i as int, i + pattern@.len()) == pattern@),
{
    let n = s.unicode_len();
    let m = pattern.unicode_len();
    let mut j: usize = 0;
    while j < m
        invariant
            0 <= j <= m,
            m == pattern@.len(),
            n == s@.len(),
            i + m <= n,
            forall|l: int| 0 <= l < j ==> s@[i + l] == pattern@[l],
        decreases m - j,
    {
        if s.get_char(i + j) != pattern.get_char(j) {
            proof {
                assert(s@.subrange(i as int, i + m as int)[j as int] == s@[i + j]);
            }
            return false;
        }
        j = j + 1;
    }
    proof {
        assert(s@.subrange(i as int, i + m as int) =~= pattern@);
    }
    true
}

/// Whether `pattern` occurs in `s`, by direct search.
pub fn str_contains(s: &str, pattern: &str) -> (r: bool)
    ensures
        r == spec_contains(s@, pattern@),
{
    let n = s.unicode_len();
    let m = pattern.unicode_len();
    if m > n {
        return false;
    }
    if m == 0 {
        proof {
            assert(s@.subrange(0, 0 + pattern@.len() as int) =~= pattern@);
        }
        return true;
    }
    let mut i: usize = 0;
    while i <= n - m
        invariant
            0 <= i <= n - m + 1,
            1 <= m <= n,
            n == s@.len(),
            m == pattern@.len(),
            forall|k: int| 0 <= k < i ==> #[trigger] s@.subrange(k, k + m as int) != pattern@,
        decreases n - i,
    {
        if matches_at(s, pattern, i) {
            return true;
        }
        i = i + 1;
    }
    false
}

/// `s` with every "./" run removed, scanning left to right.
pub open spec fn spec_strip_dot_slash(s: Seq<char>) -> Seq<char>
    decreases s.len(),
{
    if s.len() >= 2 && s[0] == '.' && s[1] == '/' {
        spec_strip_dot_slash(s.skip(2))
    } else if s.len() == 0 {
        s
    } else {
        seq![s[0]] + spec_strip_dot_slash(s.skip(1))
    }
}

/// Remove every "./" run from `s`, scanning left to right.
pub fn strip_dot_slash(s: &str) -> (r: String)
    ensures
        r@ == spec_strip_dot_slash(s@),
{
    let n = s.unicode_len();
    let mut out = String::new();
    let mut i: usize = 0;
    proof {
        assert(s@.skip(0) =~= s@);
        assert(out@ + spec_strip_dot_slash(s@) =~= spec_strip_dot_slash(s@));
    }
    while i < n
        invariant
            0 <= i <= n,
            n == s@.len(),
            out@ + spec_strip_dot_slash(s@.skip(i as int)) == spec_strip_dot_slash(s@),
        decreases n - i,
    {
        if i + 1 < n && s.get_char(i) == '.' && s.get_char(i + 1) == '/' {
            proof {
                assert(s@.skip(i as int)[0] == '.');
                assert(s@.skip(i as int)[1] == '/');
                assert(s@.skip(i as int).skip(2) =~= s@.skip(i as int + 2));
            }
            i = i + 2;
        } else {
            let piece = s.substring_char(i, i + 1);
            proof {
                let rest = s@.skip(i as int);
                assert(rest[0] == s@[i as int]);
                assert(!(rest.len() >= 2 && rest[0] == '.' && rest[1] == '/'));
                assert(rest.skip(1) =~= s@.skip(i as int + 1));
                assert(piece@ =~= seq![s@[i as int]]);
                assert((out@ + piece@) + spec_strip_dot_slash(s@.skip(i as int + 1)) =~= out@ + (
                piece@ + spec_strip_dot_slash(s@.skip(i as int + 1))));
            }
            out.append(piece);
            i = i + 1;
        }
    }
    proof {
        assert(s@.skip(n as int) =~= Seq::<char>::empty());
        assert(out@ + spec_strip_dot_slash(Seq::<char>::empty()) =~= out@);
    }
    out
}

/// Attribute a script log line's call site. A source name pointing into
/// host code (a Rust file) is replaced by the script's own name, so the
/// log always names the script; either way the leading "./" path noise is
/// stripped.
pub fn resolve_log_source(source_name: &str, script_name: &str) -> (r: String)
    ensures
        spec_contains(source_name@, ".rs"@) ==> r@ == spec_strip_dot_slash(script_name@),
        !spec_contains(source_name@, ".rs"@) ==> r@ == spec_strip_dot_slash(source_name@),
{
    if str_contains(source_name, ".rs") {
        strip_dot_slash(script_name)
    } else {
        strip_dot_slash(source_name)
    }
}

} // verus!
