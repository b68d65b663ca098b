//! The tracker: a durable set of note paths, with add, list and
//! prune-missing. The record is held as a duplicate-free vector of path
//! strings; loading and saving the backing file is the caller's business.

use vstd::prelude::*;
use crate::errors::NoteError;
use crate::sys;
use crate::text::{clone_strings, from_chars, to_chars};

verus! {

/// No two entries of `s` are the same string.
pub open spec fn unique_seq(s: Seq<Seq<char>>) -> bool {
    forall|i: int, j: int| 0 <= i < j < s.len() ==> s[i] != s[j]
}

/// `s` with `x` added, unless already present.
pub open spec fn spec_add(s: Seq<Seq<char>>, x: Seq<char>) -> Seq<Seq<char>> {
    if s.contains(x) {
        s
    } else {
        s.push(x)
    }
}

/// `s` with first occurrences kept, in order.
pub open spec fn spec_dedup(s: Seq<Seq<char>>) -> Seq<Seq<char>>
    decreases s.len(),
{
    if s.len() == 0 {
        Seq::empty()
    } else {
        spec_add(spec_dedup(s.drop_last()), s.last())
    }
}

/// The entries of `s` whose flag in `keep` is set, in order.
pub open spec fn spec_retain(s: Seq<Seq<char>>, keep: Seq<bool>) -> Seq<Seq<char>>
    decreases s.len(),
{
    if s.len() == 0 {
        Seq::empty()
    } else if keep.last() {
        spec_retain(s.drop_last(), keep.drop_last()).push(s.last())
    } else {
        spec_retain(s.drop_last(), keep.drop_last())
    }
}

/// How many flags of `keep` are unset.
pub open spec fn count_false(keep: Seq<bool>) -> nat
    decreases keep.len(),
{
    if keep.len() == 0 {
        0
    } else {
        count_false(keep.drop_last()) + if keep.last() {
            0nat
        } else {
            1nat
        }
    }
}

/// How often `x` occurs in `s`.
pub open spec fn occurrences(s: Seq<Seq<char>>, x: Seq<char>) -> nat
    decreases s.len(),
{
    if s.len() == 0 {
        0
    } else {
        occurrences(s.drop_last(), x) + if s.last() == x {
            1nat
        } else {
            0nat
        }
    }
}

/// The entries joined one per line.
pub open spec fn spec_join_lines(s: Seq<Seq<char>>) -> Seq<char>
    decreases s.len(),
{
    if s.len() == 0 {
        Seq::empty()
    } else if s.len() == 1 {
        s[0]
    } else {
        spec_join_lines(s.drop_last()) + seq!['\n'] + s.last()
    }
}

/// The persistent record: the set of known note paths.
#[derive(Debug)]
pub struct BrainData {
    entries: Vec<String>,
}

impl View for BrainData {
    type V = Seq<Seq<char>>;

    closed spec fn view(&self) -> Seq<Seq<char>> {
        self.entries.deep_view()
    }
}

impl BrainData {
    /// The record holds each path at most once.
    pub open spec fn wf(&self) -> bool {
        unique_seq(self@)
    }

    /// An empty record.
    pub fn new() -> (r: BrainData)
        ensures
            r@ == Seq::<Seq<char>>::empty(),
            r.wf(),
    {
        let r = BrainData { entries: Vec::new() };
        proof {
            assert(r@ =~= Seq::<Seq<char>>::empty());
        }
        r
    }

    /// A record built from stored entries, keeping the first occurrence of
    /// each path.
    pub fn from_entries(v: &Vec<String>) -> (r: BrainData)
        ensures
            r@ == spec_dedup(v.deep_view()),
            r.wf(),
    {
        let mut r = BrainData::new();
        let mut i: usize = 0;
        proof {
            assert(v.deep_view().take(0) =~= Seq::<Seq<char>>::empty());
        }
        while i < v.len()
            invariant
                i <= v@.len(),
                v.deep_view().len() == v@.len(),
                r@ == spec_dedup(v.deep_view().take(i as int)),
                r.wf(),
            decreases v@.len() - i,
        {
            proof {
                assert(v.deep_view().take(i + 1).drop_last() =~= v.deep_view().take(i as int));
                assert(v.deep_view().take(i + 1).last() == v@[i as int]@);
            }
            r.add(&v[i]);
            i += 1;
        }
        proof {
            assert(v.deep_view().take(v@.len() as int) =~= v.deep_view());
        }
        r
    }

    /// Whether `path` is recorded.
    pub fn contains(&self, path: &String) -> (r: bool)
        ensures
            r == self@.contains(path@),
    {
        let mut i: usize = 0;
        while i < self.entries.len()
            invariant
                i <= self@.len(),
                self@.len() == self.entries@.len(),
                forall|k: int| 0 <= k < i ==> self@[k] != path@,
            decreases self@.len() - i,
        {
            if self.entries[i] == *path {
                proof {
                    assert(self@[i as int] == path@);
                }
                return true;
            }
            i += 1;
        }
        proof {
            assert(!self@.contains(path@));
        }
        false
    }

    /// Records `path`; a path already present is absorbed, set-wise.
    pub fn add(&mut self, path: &String)
        requires
            old(self).wf(),
        ensures
            final(self)@ == spec_add(old(self)@, path@),
            final(self).wf(),
    {
        if !self.contains(path) {
            let ghost before = self@;
            self.entries.push(path.clone());
            proof {
                assert(self@ =~= before.push(path@));
                assert forall|i: int, j: int| 0 <= i < j < self@.len() implies self@[i]
                    != self@[j] by {
                    if j == self@.len() - 1 {
                        assert(before.contains(before[i]));
                    }
                }
            }
        }
    }

    /// The recorded paths, in record order.
    pub fn list(&self) -> (r: Vec<String>)
        ensures
            r.deep_view() == self@,
    {
        let r = clone_strings(&self.entries);
        proof {
            assert(r.deep_view() =~= self.entries.deep_view());
        }
        r
    }

    /// Keeps exactly the entries whose flag is set, and reports how many were
    /// dropped.
    pub fn retain_present(&mut self, present: &Vec<bool>) -> (r: usize)
        requires
            old(self).wf(),
            present@.len() == old(self)@.len(),
        ensures
            final(self)@ == spec_retain(old(self)@, present@),
            r == old(self)@.len() - final(self)@.len(),
            final(self).wf(),
    {
        let n = self.entries.len();
        let mut kept: Vec<String> = Vec::new();
        let mut i: usize = 0;
        proof {
            assert(kept.deep_view() =~= spec_retain(
                old(self)@.take(0),
                present@.take(0),
            ));
        }
        while i < n
            invariant
                i <= n,
                n == old(self)@.len(),
                self@ == old(self)@,
                self.entries@.len() == n,
                present@.len() == n,
                kept.deep_view() == spec_retain(old(self)@.take(i as int), present@.take(i as int)),
                kept@.len() <= i,
            decreases n - i,
        {
            proof {
                assert(old(self)@.take(i + 1).drop_last() =~= old(self)@.take(i as int));
                assert(present@.take(i + 1).drop_last() =~= present@.take(i as int));
                assert(old(self)@.take(i + 1).last() == old(self)@[i as int]);
            }
            if present[i] {
                let ghost kv = kept.deep_view();
                kept.push(self.entries[i].clone());
                proof {
                    assert(kept.deep_view() =~= kv.push(old(self)@[i as int]));
                }
            }
            i += 1;
        }
        proof {
            assert(old(self)@.take(n as int) =~= old(self)@);
            assert(present@.take(n as int) =~= present@);
        }
        let removed = n - kept.len();
        self.entries = kept;
        proof {
            lemma_retain_sound(old(self)@, present@);
        }
        removed
    }
}

/// Everything `spec_retain` keeps comes from the original sequence, kept
/// entries stay distinct when the input's were, and the length drops by
/// exactly the number of unset flags.
pub proof fn lemma_retain_sound(s: Seq<Seq<char>>, keep: Seq<bool>)
    requires
        s.len() == keep.len(),
    ensures
        spec_retain(s, keep).len() == s.len() - count_false(keep),
        forall|x: Seq<char>| #[trigger]
            spec_retain(s, keep).contains(x) ==> exists|i: int|
                0 <= i < s.len() && s[i] == x && keep[i],
        unique_seq(s) ==> unique_seq(spec_retain(s, keep)),
        unique_seq(s) ==> forall|i: int|
            0 <= i < s.len() && keep[i] ==> #[trigger] spec_retain(s, keep).contains(s[i]),
    decreases s.len(),
{
    if s.len() == 0 {
    } else {
        lemma_retain_sound(s.drop_last(), keep.drop_last());
        let rest = spec_retain(s.drop_last(), keep.drop_last());
        let whole = spec_retain(s, keep);
        assert(count_false(keep) <= keep.len()) by {
            lemma_count_false_bound(keep);
        }
        if keep.last() {
            assert(whole == rest.push(s.last()));
            assert forall|x: Seq<char>| #[trigger] whole.contains(x) implies exists|i: int|
                0 <= i < s.len() && s[i] == x && keep[i] by {
                let w = choose|w: int| 0 <= w < whole.len() && whole[w] == x;
                if w < rest.len() {
                    assert(rest.contains(x));
                } else {
                    assert(s[s.len() - 1] == x && keep[s.len() - 1]);
                }
            }
            if unique_seq(s) {
                assert(unique_seq(s.drop_last()));
                assert forall|i: int, j: int| 0 <= i < j < whole.len() implies whole[i]
                    != whole[j] by {
                    if j == whole.len() - 1 {
                        assert(rest.contains(rest[i]));
                        let wi = choose|wi: int|
                            0 <= wi < s.drop_last().len() && s.drop_last()[wi] == rest[i]
                                && keep.drop_last()[wi];
                        assert(s[wi] == rest[i]);
                    }
                }
                assert forall|i: int| 0 <= i < s.len() && keep[i] implies #[trigger] whole.contains(
                    s[i],
                ) by {
                    if i == s.len() - 1 {
                        assert(whole[whole.len() - 1] == s.last());
                    } else {
                        assert(s.drop_last()[i] == s[i]);
                        assert(keep.drop_last()[i] == keep[i]);
                        assert(rest.contains(s.drop_last()[i]));
                        let w = choose|w: int| 0 <= w < rest.len() && rest[w] == s[i];
                        assert(whole[w] == s[i]);
                    }
                }
            }
        } else {
            assert(whole == rest);
            if unique_seq(s) {
                assert(unique_seq(s.drop_last()));
                assert forall|i: int| 0 <= i < s.len() && keep[i] implies #[trigger] whole.contains(
                    s[i],
                ) by {
                    assert(i < s.len() - 1);
                    assert(s.drop_last()[i] == s[i]);
                    assert(keep.drop_last()[i] == keep[i]);
                    assert(rest.contains(s.drop_last()[i]));
                }
            }
        }
    }
}

proof fn lemma_count_false_bound(keep: Seq<bool>)
    ensures
        count_false(keep) <= keep.len(),
    decreases keep.len(),
{
    if keep.len() > 0 {
        lemma_count_false_bound(keep.drop_last());
    }
}

/// Operations that tie the record to the filesystem.
pub struct Brain {}

impl Brain {
    /// Records `path` if it exists on disk, reporting the recorded path;
    /// fails without touching the record when it does not.
    pub fn add(record: &mut BrainData, path: &String) -> (r: Result<String, NoteError>)
        requires
            old(record).wf(),
        ensures
            final(record).wf(),
            match r {
                Ok(p) => p@ == path@ && final(record)@ == spec_add(old(record)@, path@),
                Err(e) => e is NotFound && *final(record) == *old(record),
            },
    {
        if sys::path_is_present(path) {
            record.add(path);
            Ok(path.clone())
        } else {
            let mut m = "File ".to_owned();
            m.append(path.as_str());
            m.append(" not found");
            Err(NoteError::NotFound(m))
        }
    }

    /// The recorded paths, one per line.
    pub fn list(record: &BrainData) -> (r: String)
        ensures
            r@ == spec_join_lines(record@),
    {
        let items = record.list();
        let mut out: Vec<char> = Vec::new();
        let mut i: usize = 0;
        while i < items.len()
            invariant
                i <= items@.len(),
                items.deep_view() == record@,
                items.deep_view().len() == items@.len(),
                out@ == spec_join_lines(record@.take(i as int)),
            decreases items@.len() - i,
        {
            proof {
                assert(record@.take(i + 1).drop_last() =~= record@.take(i as int));
                assert(record@.take(i + 1).last() == record@[i as int]);
            }
            if i > 0 {
                out.push('\n');
            }
            let item = to_chars(items[i].as_str());
            crate::text::append_chars(&mut out, &item);
            proof {
                if i == 0 {
                    assert(out@ =~= record@.take(1)[0]);
                } else {
                    assert(out@ =~= spec_join_lines(record@.take(i as int)) + seq!['\n']
                        + record@[i as int]);
                }
            }
            i += 1;
        }
        proof {
            assert(record@.take(record@.len() as int) =~= record@);
        }
        from_chars(&out)
    }

    /// Drops every recorded path that is no longer present on disk, and
    /// reports how many were dropped. Which entries go depends on the
    /// filesystem at the moment each is probed; whatever it answers, the kept
    /// entries are a subset of the old ones, in order.
    pub fn clean(record: &mut BrainData) -> (r: usize)
        requires
            old(record).wf(),
        ensures
            final(record).wf(),
            r == old(record)@.len() - final(record)@.len(),
            forall|x: Seq<char>| #[trigger]
                final(record)@.contains(x) ==> old(record)@.contains(x),
            exists|k: Seq<bool>|
                k.len() == old(record)@.len() && final(record)@ == #[trigger] spec_retain(
                    old(record)@,
                    k,
                ),
    {
        let items = record.list();
        let mut present: Vec<bool> = Vec::new();
        let mut i: usize = 0;
        while i < items.len()
            invariant
                i <= items@.len(),
                present@.len() == i,
            decreases items@.len() - i,
        {
            present.push(sys::path_is_present(&items[i]));
            i += 1;
        }
        proof {
            assert(items.deep_view().len() == items@.len());
        }
        let removed = record.retain_present(&present);
        proof {
            assert(record@ == spec_retain(old(record)@, present@));
            lemma_retain_sound(old(record)@, present@);
            assert forall|x: Seq<char>| #[trigger] record@.contains(x) implies old(
                record,
            )@.contains(x) by {
                assert(spec_retain(old(record)@, present@).contains(x));
                let i = choose|i: int|
                    0 <= i < old(record)@.len() && old(record)@[i] == x && present@[i];
                assert(old(record)@[i] == x);
            }
        }
        removed
    }
}

} // verus!
