//! Deriving a safe output path for a downloaded image.
//!
//! The file stem comes from the photo's id with every character that is not
//! an ASCII letter or digit replaced by an underscore; the extension comes
//! from the image URL, read from the path part before any query string and
//! defaulting to `jpg` when the path carries no extension.

use vstd::prelude::*;

verus! {

/// An ASCII letter or digit: the characters a photo id keeps unchanged.
pub open spec fn is_ascii_alnum(c: char) -> bool {
    ('0' <= c && c <= '9') || ('A' <= c && c <= 'Z') || ('a' <= c && c <= 'z')
}

/// How one character of a photo id appears in the file stem.
pub open spec fn sanitize_char(c: char) -> char {
    if is_ascii_alnum(c) {
        c
    } else {
        '_'
    }
}

/// The file stem derived from a photo id: same length, each character
/// kept if it is an ASCII letter or digit and replaced by `_` otherwise.
pub open spec fn spec_sanitize(s: Seq<char>) -> Seq<char> {
    s.map_values(|c: char| sanitize_char(c))
}

/// Exec test for [`is_ascii_alnum`].
pub fn is_ascii_alnum_exec(c: char) -> (r: bool)
    ensures
        r == is_ascii_alnum(c),
{
    ('0' <= c && c <= '9') || ('A' <= c && c <= 'Z') || ('a' <= c && c <= 'z')
}

/// Replace every character of `id` that is not an ASCII letter or digit
/// with an underscore; the result is the stem of the output file name.
pub fn sanitize_filename(id: &str) -> (r: String)
    ensures
        r@ == spec_sanitize(id@),
{
    let len = id.unicode_len();
    let mut out = String::new();
    let mut i: usize = 0;
    while i < len
        invariant
            i <= len,
            len == id@.len(),
            out@ == spec_sanitize(id@.subrange(0, i as int)),
        decreases len - i,
    {
        let c = id.get_char(i);
        if is_ascii_alnum_exec(c) {
            out.push(c);
        } else {
            out.push('_');
        }
        proof {
            assert(spec_sanitize(id@.subrange(0, i + 1 as int)) =~= spec_sanitize(
                id@.subrange(0, i as int),
            ).push(sanitize_char(id@[i as int])));
        }
        i = i + 1;
    }
    proof {
        assert(id@.subrange(0, len as int) =~= id@);
    }
    out
}

/// Law: an id made only of ASCII letters and digits sanitizes to itself.
pub proof fn lemma_sanitize_alnum_identity(s: Seq<char>)
    requires
        forall|i: int| 0 <= i < s.len() ==> is_ascii_alnum(#[trigger] s[i]),
    ensures
        spec_sanitize(s) == s,
{
    assert(spec_sanitize(s) =~= s);
}

/// Law: sanitizing keeps the length, maps every character that is not an
/// ASCII letter or digit to `_`, and keeps every other character.
pub proof fn lemma_sanitize_pointwise(s: Seq<char>)
    ensures
        spec_sanitize(s).len() == s.len(),
        forall|i: int|
            0 <= i < s.len() && !is_ascii_alnum(s[i]) ==> #[trigger] spec_sanitize(s)[i] == '_',
        forall|i: int|
            0 <= i < s.len() && is_ascii_alnum(s[i]) ==> #[trigger] spec_sanitize(s)[i] == s[i],
{
}

/// Index of the first occurrence of `c` in `s`, or `s.len()` when `s` has none.
pub open spec fn first_index(s: Seq<char>, c: char) -> int
    decreases s.len(),
{
    if s.len() == 0 {
        0
    } else if s[0] == c {
        0
    } else {
        1 + first_index(s.drop_first(), c)
    }
}

/// Index of the last occurrence of `c` in `s`, or `-1` when `s` has none.
pub open spec fn last_index(s: Seq<char>, c: char) -> int
    decreases s.len(),
{
    if s.len() == 0 {
        -1
    } else if s[s.len() - 1] == c {
        s.len() - 1
    } else {
        last_index(s.drop_last(), c)
    }
}

pub proof fn lemma_first_index_properties(s: Seq<char>, c: char)
    ensures
        0 <= first_index(s, c) <= s.len(),
        first_index(s, c) < s.len() ==> s[first_index(s, c)] == c,
        forall|j: int| 0 <= j < first_index(s, c) ==> s[j] != c,
    decreases s.len(),
{
    if s.len() != 0 && s[0] != c {
        lemma_first_index_properties(s.drop_first(), c);
        assert forall|j: int| 0 <= j < first_index(s, c) implies s[j] != c by {
            if j > 0 {
                assert(s.drop_first()[j - 1] != c);
            }
        }
    }
}

/// A position below which `c` does not occur, and at which it occurs unless
/// the position is the length, is the first index of `c`.
pub proof fn lemma_first_index_unique(s: Seq<char>, c: char, k: int)
    requires
        0 <= k <= s.len(),
        forall|j: int| 0 <= j < k ==> s[j] != c,
        k < s.len() ==> s[k] == c,
    ensures
        first_index(s, c) == k,
{
    lemma_first_index_properties(s, c);
}

pub proof fn lemma_last_index_properties(s: Seq<char>, c: char)
    ensures
        -1 <= last_index(s, c) < s.len(),
        last_index(s, c) >= 0 ==> s[last_index(s, c)] == c,
        forall|j: int| last_index(s, c) < j < s.len() ==> s[j] != c,
    decreases s.len(),
{
    if s.len() != 0 && s[s.len() - 1] != c {
        lemma_last_index_properties(s.drop_last(), c);
        assert forall|j: int| last_index(s, c) < j < s.len() implies s[j] != c by {
            if j < s.len() - 1 {
                assert(s.drop_last()[j] != c);
            }
        }
    }
}

/// A position of `c` above which `c` does not occur (or `-1` when `c` does
/// not occur at all) is the last index of `c`.
pub proof fn lemma_last_index_unique(s: Seq<char>, c: char, k: int)
    requires
        -1 <= k < s.len(),
        k >= 0 ==> s[k] == c,
        forall|j: int| k < j < s.len() ==> s[j] != c,
    ensures
        last_index(s, c) == k,
{
    lemma_last_index_properties(s, c);
}

/// The path part of an image URL: everything before the first `?`.
pub open spec fn spec_path_part(u: Seq<char>) -> Seq<char> {
    u.subrange(0, first_index(u, '?'))
}

/// The final component of a path: everything after its last `/`.
pub open spec fn spec_file_name(p: Seq<char>) -> Seq<char> {
    p.subrange(last_index(p, '/') + 1, p.len() as int)
}

/// The extension used when the URL path carries none.
pub open spec fn default_extension() -> Seq<char> {
    seq!['j', 'p', 'g']
}

/// The extension derived from an image URL: the part of the final path
/// component after its last dot, unless that dot is missing or leads the
/// component, in which case the default `jpg` is used.
pub open spec fn spec_extension(u: Seq<char>) -> Seq<char> {
    let f = spec_file_name(spec_path_part(u));
    let d = last_index(f, '.');
    if d > 0 {
        f.subrange(d + 1, f.len() as int)
    } else {
        default_extension()
    }
}

/// Position of the first `c` in `s`, or the length of `s` when absent.
fn scan_first(s: &str, c: char) -> (r: usize)
    ensures
        r as int == first_index(s@, c),
        r <= s@.len(),
{
    let len = s.unicode_len();
    let mut i: usize = 0;
    while i < len
        invariant
            i <= len,
            len == s@.len(),
            forall|j: int| 0 <= j < i ==> s@[j] != c,
        decreases len - i,
    {
        if s.get_char(i) == c {
            proof {
                lemma_first_index_unique(s@, c, i as int);
            }
            return i;
        }
        i = i + 1;
    }
    proof {
        lemma_first_index_unique(s@, c, len as int);
    }
    len
}

/// Position of the last `c` strictly before `end` in `s`, or `None` when
/// the prefix holds none.
fn scan_last_before(s: &str, end: usize, c: char) -> (r: Option<usize>)
    requires
        end <= s@.len(),
    ensures
        r is Some ==> r->0 < end && last_index(s@.subrange(0, end as int), c) == r->0 as int,
        r is None ==> last_index(s@.subrange(0, end as int), c) == -1,
{
    let ghost pre = s@.subrange(0, end as int);
    let mut i: usize = end;
    while i > 0
        invariant
            i <= end,
            end <= s@.len(),
            pre == s@.subrange(0, end as int),
            forall|j: int| i <= j < end ==> s@[j] != c,
        decreases i,
    {
        i = i - 1;
        if s.get_char(i) == c {
            proof {
                lemma_last_index_unique(pre, c, i as int);
            }
            return Some(i);
        }
    }
    proof {
        lemma_last_index_unique(pre, c, -1);
    }
    None
}

/// Derive the output file extension from an image URL: drop any query
/// string, take what follows the last dot of the final path component, and
/// fall back to `jpg` when that component has no usable dot.
pub fn derive_extension(url: &str) -> (r: String)
    ensures
        r@ == spec_extension(url@),
{
    let ghost u = url@;
    let q = scan_first(url, '?');
    let ghost p = spec_path_part(u);
    proof {
        assert(p =~= u.subrange(0, q as int));
    }
    let start: usize = match scan_last_before(url, q, '/') {
        Some(i) => i + 1,
        None => 0,
    };
    proof {
        assert(start as int == last_index(p, '/') + 1);
        assert(spec_file_name(p) =~= u.subrange(start as int, q as int));
    }
    let ghost f = spec_file_name(p);
    let dot = scan_last_before(url, q, '.');
    match dot {
        Some(d) if d > start => {
            proof {
                lemma_last_index_properties(u.subrange(0, q as int), '.');
                assert forall|j: int| (d - start) < j < f.len() implies f[j] != '.' by {
                    assert(u.subrange(0, q as int)[j + start] != '.');
                }
                lemma_last_index_unique(f, '.', d - start);
                assert(f.subrange(d - start + 1, f.len() as int) =~= u.subrange(
                    d + 1 as int,
                    q as int,
                ));
            }
            let ext = url.substring_char(d + 1, q);
            ext.to_owned()
        },
        _ => {
            proof {
                if dot is Some {
                    let d = dot->0 as int;
                    lemma_last_index_properties(u.subrange(0, q as int), '.');
                    if d >= start {
                        assert(f[d - start] == '.');
                        assert forall|j: int| (d - start) < j < f.len() implies f[j] != '.' by {
                            assert(u.subrange(0, q as int)[j + start] != '.');
                        }
                        lemma_last_index_unique(f, '.', d - start);
                    } else {
                        assert forall|j: int| -1 < j < f.len() implies f[j] != '.' by {
                            assert(u.subrange(0, q as int)[j + start] != '.');
                        }
                        lemma_last_index_unique(f, '.', -1);
                    }
                } else {
                    lemma_last_index_properties(u.subrange(0, q as int), '.');
                    assert forall|j: int| -1 < j < f.len() implies f[j] != '.' by {
                        assert(u.subrange(0, q as int)[j + start] != '.');
                    }
                    lemma_last_index_unique(f, '.', -1);
                }
            }
            let mut out = String::new();
            out.push('j');
            out.push('p');
            out.push('g');
            proof {
                assert(out@ =~= default_extension());
            }
            out
        },
    }
}

/// The full output path for one record: `<dir>/<sanitized id>.<extension>`.
pub open spec fn spec_output_path(dir: Seq<char>, id: Seq<char>, url: Seq<char>) -> Seq<char> {
    dir + seq!['/'] + spec_sanitize(id) + seq!['.'] + spec_extension(url)
}

/// Build the output path for one photo: the directory, a slash, the
/// sanitized id as the stem, a dot, and the extension derived from the URL.
pub fn output_path(dir: &str, id: &str, url: &str) -> (r: String)
    ensures
        r@ == spec_output_path(dir@, id@, url@),
{
    let mut out = dir.to_owned();
    out.push('/');
    let stem = sanitize_filename(id);
    out.append(stem.as_str());
    out.push('.');
    let ext = derive_extension(url);
    out.append(ext.as_str());
    proof {
        assert(out@ =~= spec_output_path(dir@, id@, url@));
    }
    out
}

/// Law: the derived extension reads only the part of the URL before the
/// first `?`; whatever query string follows does not change it.
pub proof fn lemma_extension_ignores_query(p: Seq<char>, t: Seq<char>)
    requires
        forall|i: int| 0 <= i < p.len() ==> p[i] != '?',
    ensures
        spec_extension(p + seq!['?'] + t) == spec_extension(p),
{
    let u = p + seq!['?'] + t;
    lemma_first_index_unique(u, '?', p.len() as int);
    lemma_first_index_unique(p, '?', p.len() as int);
    assert(spec_path_part(u) =~= p);
    assert(spec_path_part(p) =~= p);
}

/// Law: a URL whose final path component holds no dot gets the default
/// `jpg` extension.
pub proof fn lemma_extension_defaults_without_dot(u: Seq<char>)
    requires
        forall|i: int|
            0 <= i < spec_file_name(spec_path_part(u)).len() ==> #[trigger] spec_file_name(
                spec_path_part(u),
            )[i] != '.',
    ensures
        spec_extension(u) == default_extension(),
{
    lemma_last_index_unique(spec_file_name(spec_path_part(u)), '.', -1);
}

} // verus!

