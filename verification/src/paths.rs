//! String-level path composition: joining a relative name onto a directory,
//! forcing the `.md` extension, and taking the final path component.

use vstd::prelude::*;
use crate::text::{from_chars, slice_chars, to_chars};

verus! {

/// The index of the last occurrence of `c` in `s`, or `-1` if `c` does not
/// occur.
pub open spec fn spec_last_index_of(s: Seq<char>, c: char) -> int
    decreases s.len(),
{
    if s.len() == 0 {
        -1
    } else if s.last() == c {
        s.len() - 1
    } else {
        spec_last_index_of(s.drop_last(), c)
    }
}

proof fn lemma_last_index_of_range(s: Seq<char>, c: char)
    ensures
        -1 <= spec_last_index_of(s, c) < s.len(),
        spec_last_index_of(s, c) >= 0 ==> s[spec_last_index_of(s, c)] == c,
    decreases s.len(),
{
    if s.len() > 0 && s.last() != c {
        lemma_last_index_of_range(s.drop_last(), c);
    }
}

/// The index of the last occurrence of `c` in `v`, if any.
pub fn find_last(v: &Vec<char>, c: char) -> (r: Option<usize>)
    ensures
        match r {
            Some(i) => i == spec_last_index_of(v@, c),
            None => spec_last_index_of(v@, c) == -1,
        },
{
    let mut j: usize = v.len();
    proof {
        assert(v@.take(v@.len() as int) =~= v@);
    }
    while j > 0
        invariant
            j <= v@.len(),
            spec_last_index_of(v@, c) == spec_last_index_of(v@.take(j as int), c),
        decreases j,
    {
        proof {
            assert(v@.take(j as int).last() == v@[j - 1]);
            assert(v@.take(j as int).drop_last() =~= v@.take(j - 1));
        }
        if v[j - 1] == c {
            return Some(j - 1);
        }
        j -= 1;
    }
    None
}

/// Joining `rel` onto `base`: an absolute `rel` replaces `base`; otherwise
/// the two are joined with a single separator.
pub open spec fn spec_join_path(base: Seq<char>, rel: Seq<char>) -> Seq<char> {
    if rel.len() > 0 && rel[0] == '/' {
        rel
    } else if base.len() == 0 {
        rel
    } else if base.last() == '/' {
        base + rel
    } else {
        base + seq!['/'] + rel
    }
}

/// Joins `rel` onto `base` as path components.
pub fn join_path(base: &String, rel: &String) -> (r: String)
    ensures
        r@ == spec_join_path(base@, rel@),
{
    let b = to_chars(base.as_str());
    let rl = to_chars(rel.as_str());
    if rl.len() > 0 && rl[0] == '/' {
        rel.clone()
    } else if b.len() == 0 {
        rel.clone()
    } else if b[b.len() - 1] == '/' {
        proof {
            assert(b@.last() == b@[b@.len() - 1]);
        }
        let mut out = b;
        crate::text::append_chars(&mut out, &rl);
        from_chars(&out)
    } else {
        let mut out = b;
        out.push('/');
        crate::text::append_chars(&mut out, &rl);
        proof {
            assert(out@ =~= base@ + seq!['/'] + rel@);
        }
        from_chars(&out)
    }
}

/// The final path component of `p`: everything after the last `/`, or all of
/// `p` when it holds no `/`.
pub open spec fn spec_file_name(p: Seq<char>) -> Seq<char> {
    p.subrange(spec_last_index_of(p, '/') + 1, p.len() as int)
}

/// The final path component of `p`.
pub fn file_name_of(p: &String) -> (r: String)
    ensures
        r@ == spec_file_name(p@),
{
    let v = to_chars(p.as_str());
    proof {
        lemma_last_index_of_range(v@, '/');
    }
    let n = v.len();
    let start: usize = match find_last(&v, '/') {
        Some(i) => {
            proof {
                assert(i < n);
            }
            i + 1
        },
        None => 0,
    };
    let tail = slice_chars(&v, start, v.len());
    from_chars(&tail)
}

/// Forcing the `.md` extension: when the final component of `p` has an
/// extension (a `.` after its first character), the text from that `.` on is
/// replaced by `.md`; otherwise `.md` is appended.
pub open spec fn spec_force_md(p: Seq<char>) -> Seq<char> {
    let sl = spec_last_index_of(p, '/');
    let d = spec_last_index_of(p, '.');
    if d >= sl + 2 {
        p.take(d) + ".md"@
    } else {
        p + ".md"@
    }
}

/// Replaces or appends the extension of `p` so that it ends in `.md`.
pub fn force_md_extension(p: &String) -> (r: String)
    ensures
        r@ == spec_force_md(p@),
{
    let v = to_chars(p.as_str());
    proof {
        lemma_last_index_of_range(v@, '/');
        lemma_last_index_of_range(v@, '.');
    }
    let dot: Option<usize> = find_last(&v, '.');
    let slash: Option<usize> = find_last(&v, '/');
    let cut: usize = match dot {
        Some(d) => {
            let replaces = match slash {
                Some(s) => d > s && d - s >= 2,
                None => d >= 1,
            };
            if replaces {
                d
            } else {
                v.len()
            }
        },
        None => v.len(),
    };
    let mut out = slice_chars(&v, 0, cut);
    let md = to_chars(".md");
    crate::text::append_chars(&mut out, &md);
    proof {
        assert(v@.take(v@.len() as int) =~= v@);
    }
    from_chars(&out)
}

} // verus!
