//! Classification of an input path into one of the closed set of content
//! kinds, by its lowercased extension.
//!
//! Paths are plain strings with `'/'` as the separator; trailing separators
//! are ignored.  The extension is the part of the last path component after
//! its last `'.'`; a component whose only `'.'` is its first character (such
//! as a dotfile) has no extension.

use vstd::prelude::*;

verus! {

/// The closed set of recognized content kinds.
#[derive(Debug, Clone, Copy, PartialEq, Eq, Structural)]
pub enum FileType {
    Markdown,
    Json,
    Xml,
    Txt,
    Docx,
    Html,
    Csv,
    Image,
    Unknown,
}

/// An ASCII uppercase letter mapped to lowercase; any other character kept.
/// ASCII-only lowercasing suffices here: the recognized extensions are pure
/// ASCII, and the one non-ASCII character whose Unicode lowercase is an
/// ASCII letter (the Kelvin sign, to `'k'`) occurs in none of them.
pub open spec fn lower_char(c: char) -> char {
    match c {
        'A' => 'a',
        'B' => 'b',
        'C' => 'c',
        'D' => 'd',
        'E' => 'e',
        'F' => 'f',
        'G' => 'g',
        'H' => 'h',
        'I' => 'i',
        'J' => 'j',
        'K' => 'k',
        'L' => 'l',
        'M' => 'm',
        'N' => 'n',
        'O' => 'o',
        'P' => 'p',
        'Q' => 'q',
        'R' => 'r',
        'S' => 's',
        'T' => 't',
        'U' => 'u',
        'V' => 'v',
        'W' => 'w',
        'X' => 'x',
        'Y' => 'y',
        'Z' => 'z',
        _ => c,
    }
}

/// A sequence of characters, each ASCII-lowercased.
pub open spec fn ascii_lower(s: Seq<char>) -> Seq<char> {
    s.map_values(|c: char| lower_char(c))
}

/// Index of the last occurrence of `c` in `s`, if any.
pub open spec fn find_last(s: Seq<char>, c: char) -> Option<int>
    decreases s.len(),
{
    if s.len() == 0 {
        Option::None
    } else if s.last() == c {
        Option::Some(s.len() - 1)
    } else {
        find_last(s.drop_last(), c)
    }
}

/// `find_last` returns the last occurrence: a valid index holding `c` with
/// none after it, or nothing when `s` does not hold `c`.
pub proof fn lemma_find_last(s: Seq<char>, c: char)
    ensures
        match find_last(s, c) {
            Option::Some(i) => 0 <= i < s.len() && s[i] == c && (forall|j: int|
                i < j < s.len() ==> s[j] != c),
            Option::None => forall|j: int| 0 <= j < s.len() ==> s[j] != c,
        },
    decreases s.len(),
{
    if s.len() > 0 && s.last() != c {
        let t = s.drop_last();
        lemma_find_last(t, c);
        match find_last(t, c) {
            Option::Some(i) => {
                assert(s[i] == t[i]);
                assert forall|j: int| i < j < s.len() implies s[j] != c by {
                    if j < s.len() - 1 {
                        assert(t[j] == s[j]);
                    }
                }
            },
            Option::None => {
                assert forall|j: int| 0 <= j < s.len() implies s[j] != c by {
                    if j < s.len() - 1 {
                        assert(t[j] == s[j]);
                    }
                }
            },
        }
    }
}

/// The last occurrence is determined by its characterization.
pub proof fn lemma_find_last_at(s: Seq<char>, c: char, i: int)
    requires
        0 <= i < s.len(),
        s[i] == c,
        forall|j: int| i < j < s.len() ==> s[j] != c,
    ensures
        find_last(s, c) == Option::Some(i),
    decreases s.len(),
{
    if i < s.len() - 1 {
        lemma_find_last_at(s.drop_last(), c, i);
    }
}

/// `c` nowhere in `s` means `find_last` finds nothing.
pub proof fn lemma_find_last_missing(s: Seq<char>, c: char)
    requires
        forall|j: int| 0 <= j < s.len() ==> s[j] != c,
    ensures
        find_last(s, c) is None,
    decreases s.len(),
{
    if s.len() > 0 {
        lemma_find_last_missing(s.drop_last(), c);
    }
}

/// The path with its trailing separators removed: a trailing `'/'` names
/// the same entry, so the component before it is the one that counts.
pub open spec fn trim_slashes(p: Seq<char>) -> Seq<char>
    decreases p.len(),
{
    if p.len() > 0 && p.last() == '/' {
        trim_slashes(p.drop_last())
    } else {
        p
    }
}

/// The trim is determined by where the trailing separators start.
pub proof fn lemma_trim_slashes_at(p: Seq<char>, m: int)
    requires
        0 <= m <= p.len(),
        forall|j: int| m <= j < p.len() ==> p[j] == '/',
        m > 0 ==> p[m - 1] != '/',
    ensures
        trim_slashes(p) == p.take(m),
    decreases p.len(),
{
    if p.len() > m {
        assert(p.last() == '/');
        let t = p.drop_last();
        assert forall|j: int| m <= j < t.len() implies t[j] == '/' by {
            assert(t[j] == p[j]);
        }
        if m > 0 {
            assert(t[m - 1] == p[m - 1]);
        }
        lemma_trim_slashes_at(t, m);
        assert(t.take(m) =~= p.take(m));
    } else {
        assert(p.take(m) =~= p);
    }
}

/// The last path component: everything after the last `'/'`, trailing
/// separators ignored.
pub open spec fn basename_of(p: Seq<char>) -> Seq<char> {
    let q = trim_slashes(p);
    match find_last(q, '/') {
        Option::None => q,
        Option::Some(i) => q.skip(i + 1),
    }
}

/// The extension of the last path component, if it has one.
pub open spec fn ext_of(p: Seq<char>) -> Option<Seq<char>> {
    let b = basename_of(p);
    match find_last(b, '.') {
        Option::None => Option::None,
        Option::Some(i) => if i == 0 {
            Option::None
        } else {
            Option::Some(b.skip(i + 1))
        },
    }
}

/// The kind a lowercased extension maps to.
pub open spec fn kind_of_ext(e: Seq<char>) -> FileType {
    if e == "md"@ || e == "markdown"@ {
        FileType::Markdown
    } else if e == "json"@ {
        FileType::Json
    } else if e == "xml"@ {
        FileType::Xml
    } else if e == "txt"@ || e == "rs"@ || e == "py"@ || e == "js"@ || e == "c"@ || e == "cpp"@ {
        FileType::Txt
    } else if e == "docx"@ {
        FileType::Docx
    } else if e == "html"@ || e == "htm"@ {
        FileType::Html
    } else if e == "csv"@ {
        FileType::Csv
    } else if e == "png"@ || e == "jpg"@ || e == "jpeg"@ || e == "bmp"@ {
        FileType::Image
    } else {
        FileType::Unknown
    }
}

/// The kind of a path: its extension lowercased and looked up, `Unknown`
/// when there is no extension.
pub open spec fn spec_classify(p: Seq<char>) -> FileType {
    match ext_of(p) {
        Option::None => FileType::Unknown,
        Option::Some(e) => kind_of_ext(ascii_lower(e)),
    }
}

/// Lowercasing is idempotent.
pub proof fn lemma_lower_idempotent(s: Seq<char>)
    ensures
        ascii_lower(ascii_lower(s)) == ascii_lower(s),
{
    assert(ascii_lower(ascii_lower(s)) =~= ascii_lower(s)) by {
        assert forall|i: int| 0 <= i < s.len() implies ascii_lower(ascii_lower(s))[i]
            == ascii_lower(s)[i] by {
            assert(ascii_lower(s)[i] == lower_char(s[i]));
            assert(ascii_lower(ascii_lower(s))[i] == lower_char(lower_char(s[i])));
        }
    }
}

/// Lowercasing commutes with dropping a prefix.
proof fn lemma_lower_skip(s: Seq<char>, k: int)
    requires
        0 <= k <= s.len(),
    ensures
        ascii_lower(s).skip(k) == ascii_lower(s.skip(k)),
{
    assert(ascii_lower(s).skip(k) =~= ascii_lower(s.skip(k))) by {
        assert forall|i: int| 0 <= i < s.len() - k implies ascii_lower(s).skip(k)[i]
            == ascii_lower(s.skip(k))[i] by {
            assert(ascii_lower(s).skip(k)[i] == ascii_lower(s)[k + i]);
            assert(ascii_lower(s)[k + i] == lower_char(s[k + i]));
            assert(s.skip(k)[i] == s[k + i]);
            assert(ascii_lower(s.skip(k))[i] == lower_char(s.skip(k)[i]));
        }
    }
}

/// Lowercasing moves no occurrence of a character that is not a letter:
/// searching for `'/'` or `'.'` is unchanged by it.
proof fn lemma_find_last_lower(s: Seq<char>, c: char)
    requires
        forall|d: char| (lower_char(d) == c) == (d == c),
    ensures
        find_last(ascii_lower(s), c) == find_last(s, c),
    decreases s.len(),
{
    if s.len() > 0 {
        let t = ascii_lower(s);
        assert(t.last() == lower_char(s.last()));
        assert(t.drop_last() =~= ascii_lower(s.drop_last())) by {
            assert forall|i: int| 0 <= i < s.len() - 1 implies t.drop_last()[i] == ascii_lower(
                s.drop_last(),
            )[i] by {
                assert(t[i] == lower_char(s[i]));
                assert(ascii_lower(s.drop_last())[i] == lower_char(s.drop_last()[i]));
            }
        }
        lemma_find_last_lower(s.drop_last(), c);
    }
}

/// Lowercasing moves no separator, so it commutes with trimming them.
proof fn lemma_trim_lower(p: Seq<char>)
    ensures
        trim_slashes(ascii_lower(p)) == ascii_lower(trim_slashes(p)),
    decreases p.len(),
{
    assert forall|d: char| (lower_char(d) == '/') == (d == '/') by {}
    if p.len() > 0 {
        let t = ascii_lower(p);
        assert(t.last() == lower_char(p.last()));
        assert(t.drop_last() =~= ascii_lower(p.drop_last())) by {
            assert forall|i: int| 0 <= i < p.len() - 1 implies t.drop_last()[i] == ascii_lower(
                p.drop_last(),
            )[i] by {
                assert(t[i] == lower_char(p[i]));
                assert(ascii_lower(p.drop_last())[i] == lower_char(p.drop_last()[i]));
            }
        }
        if p.last() == '/' {
            lemma_trim_lower(p.drop_last());
        }
    }
}

/// Classification looks only at the lowercased extension: lowercasing a whole
/// path does not change its kind.
pub proof fn lemma_classify_lower(p: Seq<char>)
    ensures
        spec_classify(ascii_lower(p)) == spec_classify(p),
{
    let q = ascii_lower(p);
    assert forall|d: char| (lower_char(d) == '/') == (d == '/') by {}
    assert forall|d: char| (lower_char(d) == '.') == (d == '.') by {}
    lemma_trim_lower(p);
    let tp = trim_slashes(p);
    lemma_find_last_lower(tp, '/');
    let b = basename_of(p);
    match find_last(tp, '/') {
        Option::None => {
            assert(basename_of(q) == ascii_lower(b));
        },
        Option::Some(i) => {
            lemma_find_last(tp, '/');
            lemma_lower_skip(tp, i + 1);
            assert(basename_of(q) == ascii_lower(b));
        },
    }
    lemma_find_last_lower(b, '.');
    match find_last(b, '.') {
        Option::None => {},
        Option::Some(i) => {
            if i != 0 {
                lemma_find_last(b, '.');
                lemma_lower_skip(b, i + 1);
                let e = b.skip(i + 1);
                assert(ext_of(q) == Option::Some(ascii_lower(e)));
                lemma_lower_idempotent(e);
            }
        },
    }
}

/// Two paths that agree up to ASCII case are classified the same.
pub proof fn lemma_classify_case_insensitive(p: Seq<char>, q: Seq<char>)
    requires
        ascii_lower(p) == ascii_lower(q),
    ensures
        spec_classify(p) == spec_classify(q),
{
    lemma_classify_lower(p);
    lemma_classify_lower(q);
}

/// One character lowercased.
fn lower_char_exec(c: char) -> (r: char)
    ensures
        r == lower_char(c),
{
    match c {
        'A' => 'a',
        'B' => 'b',
        'C' => 'c',
        'D' => 'd',
        'E' => 'e',
        'F' => 'f',
        'G' => 'g',
        'H' => 'h',
        'I' => 'i',
        'J' => 'j',
        'K' => 'k',
        'L' => 'l',
        'M' => 'm',
        'N' => 'n',
        'O' => 'o',
        'P' => 'p',
        'Q' => 'q',
        'R' => 'r',
        'S' => 's',
        'T' => 't',
        'U' => 'u',
        'V' => 'v',
        'W' => 'w',
        'X' => 'x',
        'Y' => 'y',
        'Z' => 'z',
        _ => c,
    }
}

/// Index of the last occurrence of `c` among the first `end` characters of
/// `s`, if any.
#[verifier::loop_isolation(false)]
pub(crate) fn find_last_exec(s: &str, end: usize, c: char) -> (r: Option<usize>)
    requires
        end <= s@.len(),
    ensures
        match r {
            Option::Some(i) => i < end && find_last(s@.take(end as int), c) == Option::Some(
                i as int,
            ),
            Option::None => find_last(s@.take(end as int), c) is None,
        },
{
    let mut i = end;
    while i > 0
        invariant
            i <= end,
            forall|j: int| i <= j < end ==> s@[j] != c,
        decreases i,
    {
        i = i - 1;
        if s.get_char(i) == c {
            proof {
                let t = s@.take(end as int);
                assert(t[i as int] == s@[i as int]);
                assert forall|j: int| i < j < t.len() implies t[j] != c by {
                    assert(t[j] == s@[j]);
                }
                lemma_find_last_at(t, c, i as int);
            }
            return Option::Some(i);
        }
    }
    proof {
        let t = s@.take(end as int);
        assert forall|j: int| 0 <= j < t.len() implies t[j] != c by {
            assert(t[j] == s@[j]);
        }
        lemma_find_last_missing(t, c);
    }
    Option::None
}

/// Whether the ASCII-lowercased characters of `s` in `[from, to)` equal
/// `lit`.
#[verifier::loop_isolation(false)]
fn lower_range_matches(s: &str, from: usize, to: usize, lit: &str) -> (r: bool)
    requires
        from <= to <= s@.len(),
    ensures
        r == (ascii_lower(s@.subrange(from as int, to as int)) == lit@),
{
    let m = lit.unicode_len();
    if to - from != m {
        proof {
            assert(ascii_lower(s@.subrange(from as int, to as int)).len() == to - from);
        }
        return false;
    }
    let mut k: usize = 0;
    while k < m
        invariant
            k <= m,
            forall|j: int| 0 <= j < k ==> ascii_lower(s@.subrange(from as int, to as int))[j]
                == lit@[j],
        decreases m - k,
    {
        let lc = lower_char_exec(s.get_char(from + k));
        proof {
            assert(ascii_lower(s@.subrange(from as int, to as int))[k as int] == lower_char(
                s@.subrange(from as int, to as int)[k as int],
            ));
            assert(s@.subrange(from as int, to as int)[k as int] == s@[from + k]);
        }
        if lc != lit.get_char(k) {
            return false;
        }
        k = k + 1;
    }
    proof {
        assert(ascii_lower(s@.subrange(from as int, to as int)) =~= lit@);
    }
    true
}

impl FileType {
    /// Classify a path by its extension, case-insensitively.
    pub fn from_path(path: &str) -> (r: FileType)
        ensures
            r == spec_classify(path@),
    {
        let n = path.unicode_len();
        let mut m = n;
        while m > 0 && path.get_char(m - 1) == '/'
            invariant
                m <= n,
                n == path@.len(),
                forall|j: int| m <= j < n ==> path@[j] == '/',
            decreases m,
        {
            m = m - 1;
        }
        proof {
            lemma_trim_slashes_at(path@, m as int);
        }
        let last_slash = find_last_exec(path, m, '/');
        proof {
            lemma_find_last(path@.take(m as int), '/');
        }
        let bstart: usize = match last_slash {
            Option::Some(i) => i + 1,
            Option::None => 0,
        };
        proof {
            assert(basename_of(path@) =~= path@.subrange(bstart as int, m as int));
        }
        // Last '.' of the basename, searched on the path itself: characters
        // before `bstart` cannot matter because none of them is past a '/'.
        let dot: Option<usize> = find_last_in_range(path, bstart, m);
        let estart: usize = match dot {
            Option::None => {
                return FileType::Unknown;
            },
            Option::Some(d) => {
                if d == bstart {
                    return FileType::Unknown;
                }
                d + 1
            },
        };
        proof {
            assert(path@.subrange(bstart as int, m as int).skip(estart - bstart)
                =~= path@.subrange(estart as int, m as int));
        }
        if lower_range_matches(path, estart, m, "md") || lower_range_matches(path, estart, m, "markdown") {
            FileType::Markdown
        } else if lower_range_matches(path, estart, m, "json") {
            FileType::Json
        } else if lower_range_matches(path, estart, m, "xml") {
            FileType::Xml
        } else if lower_range_matches(path, estart, m, "txt") || lower_range_matches(path, estart, m, "rs")
            || lower_range_matches(path, estart, m, "py") || lower_range_matches(path, estart, m, "js")
            || lower_range_matches(path, estart, m, "c") || lower_range_matches(path, estart, m, "cpp") {
            FileType::Txt
        } else if lower_range_matches(path, estart, m, "docx") {
            FileType::Docx
        } else if lower_range_matches(path, estart, m, "html") || lower_range_matches(path, estart, m, "htm") {
            FileType::Html
        } else if lower_range_matches(path, estart, m, "csv") {
            FileType::Csv
        } else if lower_range_matches(path, estart, m, "png") || lower_range_matches(path, estart, m, "jpg")
            || lower_range_matches(path, estart, m, "jpeg") || lower_range_matches(path, estart, m, "bmp") {
            FileType::Image
        } else {
            FileType::Unknown
        }
    }
}

/// Index (in `s`) of the last `'.'` in `[from, end)`, if any; relates it to
/// `find_last` on the piece `s@.subrange(from, end)`.
#[verifier::loop_isolation(false)]
pub(crate) fn find_last_in_range(s: &str, from: usize, end: usize) -> (r: Option<usize>)
    requires
        from <= end <= s@.len(),
    ensures
        match r {
            Option::Some(d) => from <= d < end && find_last(
                s@.subrange(from as int, end as int),
                '.',
            ) == Option::Some(d - from),
            Option::None => find_last(s@.subrange(from as int, end as int), '.') is None,
        },
{
    let mut i = end;
    while i > from
        invariant
            from <= i <= end,
            forall|j: int| i <= j < end ==> s@[j] != '.',
        decreases i,
    {
        i = i - 1;
        if s.get_char(i) == '.' {
            proof {
                let piece = s@.subrange(from as int, end as int);
                assert(piece[i - from] == s@[i as int]);
                assert forall|j: int| i - from < j < piece.len() implies piece[j] != '.' by {
                    assert(piece[j] == s@[from + j]);
                }
                lemma_find_last_at(piece, '.', i - from);
            }
            return Option::Some(i);
        }
    }
    proof {
        let piece = s@.subrange(from as int, end as int);
        assert forall|j: int| 0 <= j < piece.len() implies piece[j] != '.' by {
            assert(piece[j] == s@[from + j]);
        }
        lemma_find_last_missing(piece, '.');
    }
    Option::None
}

} // verus!
