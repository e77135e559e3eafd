//! Splitting text into lines, the way every text-like renderer needs it:
//! lines are separated by `'\n'`, a trailing `'\r'` of each line is dropped,
//! and a final line terminator does not open an empty last line.

use vstd::prelude::*;

verus! {

/// A line with its trailing carriage return, if any, removed.
pub open spec fn strip_cr(l: Seq<char>) -> Seq<char> {
    if l.len() > 0 && l.last() == '\r' {
        l.drop_last()
    } else {
        l
    }
}

/// Index of the first `'\n'` in `s`, if any.
pub open spec fn find_nl(s: Seq<char>) -> Option<int>
    decreases s.len(),
{
    if s.len() == 0 {
        Option::None
    } else if s[0] == '\n' {
        Option::Some(0int)
    } else {
        match find_nl(s.skip(1)) {
            Option::None => Option::None,
            Option::Some(i) => Option::Some(i + 1),
        }
    }
}

/// The first newline is determined by its characterization.
pub proof fn lemma_find_nl_at(s: Seq<char>, i: int)
    requires
        0 <= i < s.len(),
        s[i] == '\n',
        forall|j: int| 0 <= j < i ==> s[j] != '\n',
    ensures
        find_nl(s) == Option::Some(i),
    decreases s.len(),
{
    if i > 0 {
        assert forall|j: int| 0 <= j < i - 1 implies s.skip(1)[j] != '\n' by {
            assert(s.skip(1)[j] == s[j + 1]);
        }
        assert(s.skip(1)[i - 1] == s[i]);
        lemma_find_nl_at(s.skip(1), i - 1);
    }
}

/// No newline anywhere means `find_nl` finds nothing.
pub proof fn lemma_find_nl_missing(s: Seq<char>)
    requires
        forall|j: int| 0 <= j < s.len() ==> s[j] != '\n',
    ensures
        find_nl(s) is None,
    decreases s.len(),
{
    if s.len() > 0 {
        assert forall|j: int| 0 <= j < s.skip(1).len() implies s.skip(1)[j] != '\n' by {
            assert(s.skip(1)[j] == s[j + 1]);
        }
        lemma_find_nl_missing(s.skip(1));
    }
}

/// The lines of `s`: split at each `'\n'`, strip one trailing `'\r'` from
/// each piece, and do not count an empty piece after a final `'\n'`.
pub open spec fn spec_lines(s: Seq<char>) -> Seq<Seq<char>>
    decreases s.len(),
{
    if s.len() == 0 {
        Seq::empty()
    } else {
        match find_nl(s) {
            Option::None => seq![strip_cr(s)],
            Option::Some(i) => {
                if 0 <= i < s.len() {
                    seq![strip_cr(s.take(i))] + spec_lines(s.skip(i + 1))
                } else {
                    Seq::empty()
                }
            },
        }
    }
}

/// Whether two string slices hold the same characters.
#[verifier::loop_isolation(false)]
pub fn str_eq(a: &str, b: &str) -> (r: bool)
    ensures
        r == (a@ == b@),
{
    let n = a.unicode_len();
    if n != b.unicode_len() {
        return false;
    }
    let mut i: usize = 0;
    while i < n
        invariant
            i <= n,
            forall|j: int| 0 <= j < i ==> a@[j] == b@[j],
        decreases n - i,
    {
        if a.get_char(i) != b.get_char(i) {
            return false;
        }
        i = i + 1;
    }
    proof {
        assert(a@ =~= b@);
    }
    true
}

/// One piece of `s`, as a fresh `String`, with a trailing `'\r'` removed.
fn line_piece(s: &str, start: usize, end: usize) -> (r: String)
    requires
        start <= end <= s@.len(),
    ensures
        r@ == strip_cr(s@.subrange(start as int, end as int)),
{
    let piece = if end > start && s.get_char(end - 1) == '\r' {
        let p = s.substring_char(start, end - 1);
        proof {
            assert(s@.subrange(start as int, end as int).last() == '\r');
            assert(s@.subrange(start as int, end - 1) =~= s@.subrange(
                start as int,
                end as int,
            ).drop_last());
        }
        p
    } else {
        let p = s.substring_char(start, end);
        proof {
            if end > start {
                assert(s@.subrange(start as int, end as int).last() == s@[end - 1]);
            }
        }
        p
    };
    piece.to_owned()
}

/// Split `s` into its lines.
#[verifier::loop_isolation(false)]
pub fn split_lines(s: &str) -> (r: Vec<String>)
    ensures
        r.deep_view() == spec_lines(s@),
{
    let n = s.unicode_len();
    let mut r: Vec<String> = Vec::new();
    let mut start: usize = 0;
    let mut i: usize = 0;
    proof {
        assert(s@.skip(0) =~= s@);
        assert(Seq::<Seq<char>>::empty() + spec_lines(s@) =~= spec_lines(s@));
    }
    while i < n
        invariant
            start <= i <= n,
            spec_lines(s@) =~= r.deep_view() + spec_lines(s@.skip(start as int)),
            forall|j: int| start <= j < i ==> s@[j] != '\n',
        decreases n - i,
    {
        if s.get_char(i) == '\n' {
            let piece = line_piece(s, start, i);
            let ghost r_dv = r.deep_view();
            proof {
                let rest = s@.skip(start as int);
                assert forall|j: int| 0 <= j < i - start implies rest[j] != '\n' by {
                    assert(rest[j] == s@[start + j]);
                }
                assert(rest[i - start] == s@[i as int]);
                lemma_find_nl_at(rest, i - start);
                assert(rest.take(i - start) =~= s@.subrange(start as int, i as int));
                assert(rest.skip(i - start + 1) =~= s@.skip(i + 1));
            }
            r.push(piece);
            proof {
                assert(r.deep_view() =~= r_dv.push(piece@));
                assert(r_dv.push(piece@) + spec_lines(s@.skip(i + 1)) =~= r_dv + (seq![piece@]
                    + spec_lines(s@.skip(i + 1))));
            }
            start = i + 1;
        }
        i = i + 1;
    }
    proof {
        let rest = s@.skip(start as int);
        assert forall|j: int| 0 <= j < rest.len() implies rest[j] != '\n' by {
            assert(rest[j] == s@[start + j]);
        }
        lemma_find_nl_missing(rest);
    }
    if start < n {
        let piece = line_piece(s, start, n);
        let ghost r_dv = r.deep_view();
        proof {
            let rest = s@.skip(start as int);
            assert(rest =~= s@.subrange(start as int, n as int));
            assert(spec_lines(rest) =~= seq![strip_cr(rest)]);
        }
        r.push(piece);
        proof {
            assert(r.deep_view() =~= r_dv.push(piece@));
            assert(r_dv.push(piece@) =~= r_dv + seq![piece@]);
        }
    } else {
        proof {
            assert(s@.skip(start as int).len() == 0);
            assert(r.deep_view() + spec_lines(s@.skip(start as int)) =~= r.deep_view());
        }
    }
    r
}

} // verus!
