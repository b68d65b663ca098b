//! The library's general laws, stated over the spec-level models and proved
//! once and for all: idempotent bare opens, unconditional overwrites under
//! `New`, and set semantics of the tracker.

use vstd::prelude::*;
use crate::brain::{occurrences, spec_add, unique_seq};
use crate::render::{
    spec_apply_plan, spec_content_source, spec_create, spec_inject, spec_target_path, PlanView,
};

verus! {

proof fn lemma_occurrences_zero(s: Seq<Seq<char>>, x: Seq<char>)
    requires
        !s.contains(x),
    ensures
        occurrences(s, x) == 0,
    decreases s.len(),
{
    if s.len() > 0 {
        assert(s[s.len() - 1] != x);
        assert forall|i: int| 0 <= i < s.drop_last().len() implies s.drop_last()[i] != x by {
            assert(s[i] != x);
        }
        lemma_occurrences_zero(s.drop_last(), x);
    }
}

proof fn lemma_unique_occurrences_one(s: Seq<Seq<char>>, x: Seq<char>)
    requires
        unique_seq(s),
        s.contains(x),
    ensures
        occurrences(s, x) == 1,
    decreases s.len(),
{
    let w = choose|w: int| 0 <= w < s.len() && s[w] == x;
    if s.last() == x {
        assert forall|i: int| 0 <= i < s.drop_last().len() implies s.drop_last()[i] != x by {
            assert(s[i] != s[s.len() - 1]);
        }
        lemma_occurrences_zero(s.drop_last(), x);
    } else {
        assert(w < s.len() - 1);
        assert(s.drop_last()[w] == x);
        assert(s.drop_last().contains(x));
        assert(unique_seq(s.drop_last()));
        lemma_unique_occurrences_one(s.drop_last(), x);
    }
}

/// Tracker round trip: once a path is added to a duplicate-free record, it
/// occurs in the record exactly once, the record stays duplicate-free, and
/// adding the same path again changes nothing.
pub proof fn law_add_then_list_once(s: Seq<Seq<char>>, x: Seq<char>)
    requires
        unique_seq(s),
    ensures
        occurrences(spec_add(s, x), x) == 1,
        unique_seq(spec_add(s, x)),
        spec_add(spec_add(s, x), x) == spec_add(s, x),
{
    let added = spec_add(s, x);
    if s.contains(x) {
        lemma_unique_occurrences_one(s, x);
    } else {
        assert(added == s.push(x));
        assert(added[added.len() - 1] == x);
        assert(added.contains(x));
        assert forall|i: int, j: int| 0 <= i < j < added.len() implies added[i] != added[j] by {
            if j == added.len() - 1 {
                assert(s.contains(s[i]));
            }
        }
        lemma_unique_occurrences_one(added, x);
    }
    assert(spec_add(s, x).contains(x));
}

/// Idempotent bare open: when the target path already exists and overwriting
/// was not asked for, the render keeps the file as it is, the modelled
/// filesystem comes out unchanged, and rendering again returns the very same
/// plan with the very same path.
pub proof fn law_open_existing_is_idempotent(
    inline: Option<Seq<char>>,
    body: Option<Seq<char>>,
    path: Seq<char>,
    name: Seq<char>,
    date: Seq<char>,
    dir: Option<Seq<char>>,
    fs: Map<Seq<char>, Seq<char>>,
)
    requires
        spec_content_source(inline, body) is Some,
        fs.contains_key(spec_target_path(path, name, dir)),
    ensures
        ({
            let tp = spec_target_path(path, name, dir);
            let first = spec_create(
                inline,
                body,
                path,
                name,
                date,
                dir,
                true,
                fs.contains_key(tp),
                false,
            );
            let fs1 = spec_apply_plan(fs, tp, Option::None);
            &&& first == PlanView::Made(tp, Option::<Seq<char>>::None)
            &&& fs1 == fs
            &&& spec_create(inline, body, path, name, date, dir, true, fs1.contains_key(tp), false)
                == first
        }),
{
}

/// Overwrite semantics of `New`: with overwriting asked for, the render
/// always produces the substituted content and the modelled filesystem holds
/// exactly that content at the target afterwards — whatever stood there
/// before, even content already identical to it.
pub proof fn law_new_always_overwrites(
    inline: Option<Seq<char>>,
    body: Option<Seq<char>>,
    path: Seq<char>,
    name: Seq<char>,
    date: Seq<char>,
    dir: Option<Seq<char>>,
    fs: Map<Seq<char>, Seq<char>>,
    target_exists: bool,
)
    requires
        spec_content_source(inline, body) is Some,
    ensures
        ({
            let tp = spec_target_path(path, name, dir);
            let content = spec_inject(
                spec_content_source(inline, body)->Some_0,
                name,
                date,
                path,
            );
            let r = spec_create(inline, body, path, name, date, dir, true, target_exists, true);
            let fs1 = spec_apply_plan(fs, tp, Option::Some(content));
            &&& r == PlanView::Made(tp, Option::Some(content))
            &&& fs1.contains_key(tp)
            &&& fs1[tp] == content
        }),
{
}

} // verus!
