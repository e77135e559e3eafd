//! Output-path computation: the PDF for input `X/name.ext` is
//! `<output directory or parent of X>/<name>.pdf`.
//!
//! Trailing separators on the input are ignored, as the filesystem ignores
//! them.  An input whose last component is empty, or that has no parent when
//! no output directory is set, gets no output path; the batch marks such an
//! entry failed instead of converting it.

use vstd::prelude::*;
use crate::classify::{
    basename_of, find_last, find_last_exec, find_last_in_range, lemma_find_last,
    lemma_trim_slashes_at, trim_slashes,
};

verus! {

/// The stem of a path component: up to its last `'.'`, the whole component
/// when it has no `'.'` past its first character, nothing when it is empty.
pub open spec fn stem_of(b: Seq<char>) -> Option<Seq<char>> {
    if b.len() == 0 {
        Option::None
    } else {
        match find_last(b, '.') {
            Option::None => Option::Some(b),
            Option::Some(i) => if i == 0 {
                Option::Some(b)
            } else {
                Option::Some(b.take(i))
            },
        }
    }
}

/// Where the PDF for an input goes: the chosen directory, or the input's
/// parent when none is chosen, joined with the input's stem and `.pdf`.
/// Nothing when the input has no stem, or no parent while no directory is
/// chosen.
pub open spec fn spec_output_path(input: Seq<char>, dir: Option<Seq<char>>) -> Option<Seq<char>> {
    match stem_of(basename_of(input)) {
        Option::None => Option::None,
        Option::Some(stem) => match dir {
            Option::Some(d) => Option::Some(d + "/"@ + stem + ".pdf"@),
            Option::None => {
                let q = trim_slashes(input);
                match find_last(q, '/') {
                    Option::None => Option::None,
                    Option::Some(i) => Option::Some(q.take(i) + "/"@ + stem + ".pdf"@),
                }
            },
        },
    }
}

/// Compute the output path for an input, if it has one.
pub fn output_path_for(input: &str, dir: &Option<String>) -> (r: Option<String>)
    ensures
        match r {
            Option::Some(o) => spec_output_path(input@, dir.deep_view()) == Option::Some(o@),
            Option::None => spec_output_path(input@, dir.deep_view()) is None,
        },
{
    let n = input.unicode_len();
    let mut m = n;
    while m > 0 && input.get_char(m - 1) == '/'
        invariant
            m <= n,
            n == input@.len(),
            forall|j: int| m <= j < n ==> input@[j] == '/',
        decreases m,
    {
        m = m - 1;
    }
    proof {
        lemma_trim_slashes_at(input@, m as int);
    }
    let last_slash = find_last_exec(input, m, '/');
    proof {
        lemma_find_last(input@.take(m as int), '/');
    }
    let bstart: usize = match last_slash {
        Option::Some(i) => i + 1,
        Option::None => 0,
    };
    proof {
        assert(basename_of(input@) =~= input@.subrange(bstart as int, m as int));
    }
    if bstart == m {
        // Empty last component: no stem.
        return Option::None;
    }
    let dot = find_last_in_range(input, bstart, m);
    let stem_end: usize = match dot {
        Option::None => m,
        Option::Some(d) => if d == bstart {
            m
        } else {
            d
        },
    };
    proof {
        let b = input@.subrange(bstart as int, m as int);
        if stem_end < m {
            assert(b.take(stem_end - bstart) =~= input@.subrange(
                bstart as int,
                stem_end as int,
            ));
        } else {
            assert(b =~= input@.subrange(bstart as int, m as int));
        }
        assert(stem_of(b) == Option::Some(
            input@.subrange(bstart as int, stem_end as int),
        ));
    }
    let stem = input.substring_char(bstart, stem_end);
    match dir {
        Option::Some(d) => {
            let mut out = d.clone();
            out.append("/");
            out.append(stem);
            out.append(".pdf");
            Option::Some(out)
        },
        Option::None => {
            match last_slash {
                Option::None => Option::None,
                Option::Some(si) => {
                    let parent = input.substring_char(0, si);
                    proof {
                        assert(input@.subrange(0, si as int) =~= input@.take(m as int).take(
                            si as int,
                        ));
                    }
                    let mut out = parent.to_owned();
                    out.append("/");
                    out.append(stem);
                    out.append(".pdf");
                    Option::Some(out)
                },
            }
        },
    }
}

} // verus!
