//! Pure path arithmetic over relative paths held as strings.
//!
//! The planner works on paths relative to a root, with `/` as the separator.
//! Everything here is ordinary string scanning, specified over the `Seq<char>`
//! view of the path.

use vstd::prelude::*;
use vstd::string::StrSliceExecFns;
use vstd::string::StringExecFns;

verus! {

/// Index of the last occurrence of `c` in `s`, or -1 when `c` does not occur.
pub open spec fn spec_last_index_of(s: Seq<char>, c: char) -> int
    decreases s.len(),
{
    if s.len() == 0 {
        -1
    } else if s[s.len() - 1] == c {
        s.len() - 1
    } else {
        spec_last_index_of(s.drop_last(), c)
    }
}

/// The final component of a relative path: everything after the last `/`,
/// or the whole path when it has no separator.
pub open spec fn spec_file_name(s: Seq<char>) -> Seq<char> {
    s.subrange(spec_last_index_of(s, '/') + 1, s.len() as int)
}

/// The directory part of a relative path: everything before the last `/`,
/// or empty when it has no separator.
pub open spec fn spec_parent_dir(s: Seq<char>) -> Seq<char> {
    let i = spec_last_index_of(s, '/');
    if i >= 0 {
        s.subrange(0, i)
    } else {
        Seq::empty()
    }
}

/// The extension of a file name: the part after the last dot, provided that
/// dot is not the leading character.  A name without a dot, or a dotfile
/// such as `.config`, has no extension.
pub open spec fn spec_extension(name: Seq<char>) -> Option<Seq<char>> {
    let d = spec_last_index_of(name, '.');
    if d >= 1 {
        Some(name.subrange(d + 1, name.len() as int))
    } else {
        None
    }
}

/// The stem of a file name: the part before its extension, or the whole
/// name when it has none.
pub open spec fn spec_stem(name: Seq<char>) -> Seq<char> {
    let d = spec_last_index_of(name, '.');
    if d >= 1 {
        name.subrange(0, d)
    } else {
        name
    }
}

/// Whether the extension spells `ncm`, compared without regard to ASCII case.
pub open spec fn spec_is_ncm_ext(e: Seq<char>) -> bool {
    &&& e.len() == 3
    &&& (e[0] == 'n' || e[0] == 'N')
    &&& (e[1] == 'c' || e[1] == 'C')
    &&& (e[2] == 'm' || e[2] == 'M')
}

/// Whether a relative path names a file in the proprietary container format.
pub open spec fn spec_is_ncm_path(s: Seq<char>) -> bool {
    match spec_extension(spec_file_name(s)) {
        Some(e) => spec_is_ncm_ext(e),
        None => false,
    }
}

/// `root` and `rel` joined with a single separator.
pub open spec fn spec_join(root: Seq<char>, rel: Seq<char>) -> Seq<char> {
    root + seq!['/'] + rel
}

/// Whether the string holds an interior NUL character, which the decoder's
/// C interface cannot carry.
pub open spec fn spec_contains_nul(s: Seq<char>) -> bool {
    exists|i: int| 0 <= i < s.len() && s[i] == '\0'
}

/// Joining two different relative paths under the same root gives two
/// different results.
pub proof fn lemma_join_injective(root: Seq<char>, a: Seq<char>, b: Seq<char>)
    requires
        spec_join(root, a) == spec_join(root, b),
    ensures
        a == b,
{
    assert(spec_join(root, a).len() == root.len() + 1 + a.len());
    assert(spec_join(root, b).len() == root.len() + 1 + b.len());
    assert forall|i: int| 0 <= i < a.len() implies a[i] == b[i] by {
        assert(spec_join(root, a)[root.len() + 1 + i] == a[i]);
        assert(spec_join(root, b)[root.len() + 1 + i] == b[i]);
    }
    assert(a =~= b);
}

/// Position of the last occurrence of `c` in `s`, if any.
pub fn last_index_of_char(s: &str, c: char) -> (r: Option<usize>)
    ensures
        match r {
            Some(i) => i < s@.len() && spec_last_index_of(s@, c) == i as int,
            None => spec_last_index_of(s@, c) == -1,
        },
{
    let n = s.unicode_len();
    proof {
        assert(s@.take(n as int) =~= s@);
    }
    let mut i = n;
    while i > 0
        invariant
            i <= n,
            n == s@.len(),
            spec_last_index_of(s@, c) == spec_last_index_of(s@.take(i as int), c),
        decreases i,
    {
        let ch = s.get_char(i - 1);
        proof {
            assert(s@.take(i as int).drop_last() =~= s@.take(i - 1));
            assert(s@.take(i as int).last() == s@[i - 1]);
        }
        if ch == c {
            return Some(i - 1);
        }
        i = i - 1;
    }
    proof {
        assert(s@.take(0) =~= Seq::<char>::empty());
    }
    None
}

/// The final component of a relative path.
pub fn file_name_of<'a>(s: &'a str) -> (r: &'a str)
    ensures
        r@ == spec_file_name(s@),
{
    let n = s.unicode_len();
    match last_index_of_char(s, '/') {
        Some(i) => s.substring_char(i + 1, n),
        None => {
            proof {
                assert(s@.subrange(0, s@.len() as int) =~= s@);
            }
            s
        },
    }
}

/// The directory part of a relative path, empty when there is none.
pub fn parent_dir_of<'a>(s: &'a str) -> (r: &'a str)
    ensures
        r@ == spec_parent_dir(s@),
{
    match last_index_of_char(s, '/') {
        Some(i) => s.substring_char(0, i),
        None => {
            proof {
                reveal_strlit("");
                assert(""@ =~= Seq::<char>::empty());
            }
            ""
        },
    }
}

/// The stem of a file name.
pub fn stem_of_name<'a>(name: &'a str) -> (r: &'a str)
    ensures
        r@ == spec_stem(name@),
{
    match last_index_of_char(name, '.') {
        Some(d) if d >= 1 => name.substring_char(0, d),
        _ => name,
    }
}

/// Whether the path names a file in the proprietary container format.
pub fn is_ncm_path(s: &str) -> (r: bool)
    ensures
        r == spec_is_ncm_path(s@),
{
    let name = file_name_of(s);
    let n = name.unicode_len();
    match last_index_of_char(name, '.') {
        Some(d) if d >= 1 => {
            if n - d - 1 == 3 {
                let c0 = name.get_char(d + 1);
                let c1 = name.get_char(d + 2);
                let c2 = name.get_char(d + 3);
                (c0 == 'n' || c0 == 'N') && (c1 == 'c' || c1 == 'C') && (c2 == 'm' || c2 == 'M')
            } else {
                false
            }
        },
        _ => false,
    }
}

/// Whether `p` is a prefix of `s`, character for character.
pub fn str_starts_with(s: &str, p: &str) -> (r: bool)
    ensures
        r == p@.is_prefix_of(s@),
{
    let np = p.unicode_len();
    let ns = s.unicode_len();
    if np > ns {
        return false;
    }
    let mut i: usize = 0;
    while i < np
        invariant
            i <= np,
            np == p@.len(),
            ns == s@.len(),
            np <= ns,
            forall|j: int| 0 <= j < i ==> p@[j] == s@[j],
        decreases np - i,
    {
        if p.get_char(i) != s.get_char(i) {
            return false;
        }
        i = i + 1;
    }
    proof {
        assert(p@ =~= s@.subrange(0, p@.len() as int));
    }
    true
}

/// `root` and `rel` joined with a single separator.
pub fn join_path(root: &str, rel: &str) -> (r: String)
    ensures
        r@ == spec_join(root@, rel@),
{
    let mut r = root.to_owned();
    r.append("/");
    r.append(rel);
    proof {
        reveal_strlit("/");
        assert("/"@ =~= seq!['/']);
    }
    r
}

/// Whether the string holds a NUL character.
pub fn contains_nul(s: &str) -> (r: bool)
    ensures
        r == spec_contains_nul(s@),
{
    let n = s.unicode_len();
    let mut i: usize = 0;
    while i < n
        invariant
            i <= n,
            n == s@.len(),
            forall|j: int| 0 <= j < i ==> s@[j] != '\0',
        decreases n - i,
    {
        if s.get_char(i) == '\0' {
            return true;
        }
        i = i + 1;
    }
    false
}

} // verus!
