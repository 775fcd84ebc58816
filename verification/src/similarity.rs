//! "Did you mean" candidates: global defines ranked by edit distance to a
//! searched name, ties broken lexicographically so the ranking is
//! deterministic.

use vstd::prelude::*;
use crate::defines::Defines;
use crate::definition::DefinitionModel;
use crate::scope::{lookup, EntryModel};
use crate::strings::{lemma_lex_le_trans, lemma_lex_total, lex_le, str_lex_le};

verus! {

/// The Levenshtein edit distance: the minimum number of insertions,
/// deletions and substitutions that turn `a` into `b`.
#[verifier::opaque]
pub open spec fn lev(a: Seq<char>, b: Seq<char>) -> nat
    decreases a.len(), b.len(),
{
    if a.len() == 0 {
        b.len()
    } else if b.len() == 0 {
        a.len()
    } else {
        let tail_cost = lev(a.skip(1), b.skip(1)) + if a[0] == b[0] {
            0
        } else {
            1nat
        };
        let del_cost = lev(a.skip(1), b) + 1;
        let ins_cost = lev(a, b.skip(1)) + 1;
        if tail_cost <= del_cost && tail_cost <= ins_cost {
            tail_cost
        } else if del_cost <= ins_cost {
            del_cost
        } else {
            ins_cost
        }
    }
}

/// Edit distance between two names.
///
/// Relies on strsim's `levenshtein`: the minimum number of insertions,
/// deletions and substitutions between the two strings' character sequences.
#[verifier::external_body]
fn levenshtein(a: &str, b: &str) -> (r: usize)
    ensures
        r == lev(a@, b@),
{
    strsim::levenshtein(a, b)
}

/// Ranking: by edit distance to `search`, ties broken lexicographically.
pub open spec fn rank_le(search: Seq<char>, a: Seq<char>, b: Seq<char>) -> bool {
    ||| lev(a, search) < lev(b, search)
    ||| (lev(a, search) == lev(b, search) && lex_le(a, b))
}

/// A global function-like define named `n`, with the asked-for arity.
pub open spec fn function_candidate(
    g: Seq<EntryModel>,
    n: Seq<char>,
    arity: Option<usize>,
) -> bool {
    match lookup(g, n) {
        Some(e) => match e.definition {
            DefinitionModel::Function(f) => match arity {
                Some(a) => f.params.len() == a,
                None => true,
            },
            _ => false,
        },
        None => false,
    }
}

/// A global value define named `n`.
pub open spec fn value_candidate(g: Seq<EntryModel>, n: Seq<char>) -> bool {
    match lookup(g, n) {
        Some(e) => e.definition is Value,
        None => false,
    }
}

/// What both rankings promise: at most three names, every one of them a
/// candidate within edit distance three of the query, pairwise distinct, in
/// ascending rank (distance first, ties broken lexicographically), and no
/// better-ranked candidate left out.
pub open spec fn similar_post(
    r: Seq<String>,
    search: Seq<char>,
    qualifies: spec_fn(Seq<char>) -> bool,
) -> bool {
    &&& r.len() <= 3
    &&& forall|i: int| 0 <= i < r.len() ==> qualifies((#[trigger] r[i])@)
    &&& forall|i: int| 0 <= i < r.len() ==> lev((#[trigger] r[i])@, search) <= 3
    &&& forall|i: int, j: int| 0 <= i < j < r.len() ==> rank_le(search, r[i]@, r[j]@)
    &&& forall|i: int, j: int| 0 <= i < j < r.len() ==> r[i]@ != r[j]@
    &&& forall|n: Seq<char>|
        #[trigger] qualifies(n) && lev(n, search) <= 3 ==> (exists|i: int|
            0 <= i < r.len() && (#[trigger] r[i])@ == n) || (r.len() == 3 && forall|i: int|
            0 <= i < r.len() ==> rank_le(search, (#[trigger] r[i])@, n))
}

impl Defines {
    /// Up to three function-like defines similar to `search`, optionally
    /// restricted to a declared arity.
    #[verifier::rlimit(100)]
    pub fn similar_function(&self, search: &str, args: Option<usize>) -> (r: Vec<String>)
        requires
            self.wf(),
        ensures
            similar_post(r@, search@, |n: Seq<char>| function_candidate(self@.global, n, args)),
    {
        let g = self.global();
        let mut cand: Vec<(usize, String)> = Vec::new();
        let mut gidx: Ghost<Seq<int>> = Ghost(Seq::empty());
        let mut idx: usize = 0;
        while idx < g.len()
            invariant
                self.wf(),
                g == self.global,
                idx <= g@.len(),
                gidx@.len() == idx,
                forall|a: int|
                    0 <= a < cand@.len() ==> function_candidate(
                        self@.global,
                        (#[trigger] cand@[a]).1@,
                        args,
                    ),
                forall|a: int|
                    0 <= a < cand@.len() ==> (#[trigger] cand@[a]).0 == lev(cand@[a].1@, search@)
                        && cand@[a].0 <= 3,
                forall|a: int|
                    0 <= a < cand@.len() ==> exists|j: int|
                        0 <= j < idx && (#[trigger] cand@[a]).1@ == self@.global[j].name,
                forall|a: int, b: int| 0 <= a < b < cand@.len() ==> cand@[a].1@ != cand@[b].1@,
                forall|j: int|
                    0 <= j < idx && #[trigger] gidx@[j] == -1 ==> !(function_candidate(
                        self@.global,
                        self@.global[j].name,
                        args,
                    ) && lev(self@.global[j].name, search@) <= 3),
                forall|j: int|
                    0 <= j < idx && #[trigger] gidx@[j] != -1 ==> 0 <= gidx@[j] < cand@.len()
                        && cand@[gidx@[j]].1@ == self@.global[j].name && cand@[gidx@[j]].0 == lev(
                        self@.global[j].name,
                        search@,
                    ),
            decreases g@.len() - idx,
        {
            let e = g.entry_at(idx);
            let keep: bool = match e.definition.as_function() {
                Some(f) => match args {
                    Some(a) => f.args().len() == a,
                    None => true,
                },
                None => false,
            };
            proof {
                crate::scope::lemma_unique_find(self@.global, self@.global[idx as int].name, idx as int);
            }
            let ghost gname = self@.global[idx as int].name;
            if keep {
                let d = levenshtein(e.name.as_str(), search);
                if d <= 3 {
                    let ghost old_cand = cand@;
                    cand.push((d, e.name.clone()));
                    proof {
                        gidx@ = gidx@.push(cand@.len() - 1);
                        assert(cand@[cand@.len() - 1].1@ == gname);
                        assert forall|a: int, b: int| 0 <= a < b < cand@.len() implies cand@[a].1@
                            != cand@[b].1@ by {
                            if b == cand@.len() - 1 {
                                let j = choose|j: int|
                                    0 <= j < idx && (#[trigger] old_cand[a]).1@
                                        == self@.global[j].name;
                                assert(self@.global[j].name != self@.global[idx as int].name);
                            }
                        }
                    }
                } else {
                    proof {
                        gidx@ = gidx@.push(-1);
                        assert(lev(gname, search@) > 3);
                    }
                }
            } else {
                proof {
                    gidx@ = gidx@.push(-1);
                    assert(!function_candidate(self@.global, gname, args));
                }
            }
            idx = idx + 1;
        }
        let ghost cand_view = cand@;
        let ghost qualifies = |n: Seq<char>| function_candidate(self@.global, n, args);
        let (sorted, src, dst) = rank_sort(cand, Ghost(search@));
        let mut out: Vec<String> = Vec::new();
        let mut i: usize = 0;
        while i < sorted.len()
            invariant
                i <= sorted@.len(),
                out@.len() == i,
                forall|a: int| 0 <= a < i ==> (#[trigger] out@[a])@ == sorted@[a].1@,
            decreases sorted@.len() - i,
        {
            out.push(sorted[i].1.clone());
            i = i + 1;
        }
        proof {
            lemma_post_transfer(out@, sorted@, src@, cand_view, search@, qualifies);
            assert forall|n: Seq<char>| #[trigger] qualifies(n) && lev(n, search@) <= 3 implies (
            exists|ii: int| 0 <= ii < out@.len() && (#[trigger] out@[ii])@ == n) || (out@.len() == 3
                && forall|ii: int|
                0 <= ii < out@.len() ==> rank_le(search@, (#[trigger] out@[ii])@, n)) by {
                crate::scope::lemma_find_idx_props(self@.global, n);
                let j = crate::scope::find_idx(self@.global, n);
                assert(0 <= j < self@.global.len());
                assert(self@.global[j].name == n);
                assert(gidx@[j] != -1);
                let b = gidx@[j];
                assert(cand_view[b].1@ == n && cand_view[b].0 == lev(n, search@));
                let a = dst@[b];
                if a < sorted@.len() {
                    assert(sorted@[a].1@ == n);
                    assert(out@[a]@ == n);
                } else {
                    assert(sorted@.len() == 3);
                    assert forall|ii: int| 0 <= ii < out@.len() implies rank_le(
                        search@,
                        (#[trigger] out@[ii])@,
                        n,
                    ) by {
                        assert(pair_le(search@, sorted@[ii], cand_view[b]));
                        assert(0 <= src@[ii] < cand_view.len());
                        assert(sorted@[ii].0 == cand_view[src@[ii]].0 && sorted@[ii].1@
                            == cand_view[src@[ii]].1@);
                        assert(cand_view[src@[ii]].0 == lev(cand_view[src@[ii]].1@, search@));
                        assert(cand_view[b].0 == lev(n, search@));
                    }
                }
            }
        }
        out
    }

    /// Up to three value defines similar to `search`.
    #[verifier::rlimit(100)]
    pub fn similar_values(&self, search: &str) -> (r: Vec<String>)
        requires
            self.wf(),
        ensures
            similar_post(r@, search@, |n: Seq<char>| value_candidate(self@.global, n)),
    {
        let g = self.global();
        let mut cand: Vec<(usize, String)> = Vec::new();
        let mut gidx: Ghost<Seq<int>> = Ghost(Seq::empty());
        let mut idx: usize = 0;
        while idx < g.len()
            invariant
                self.wf(),
                g == self.global,
                idx <= g@.len(),
                gidx@.len() == idx,
                forall|a: int|
                    0 <= a < cand@.len() ==> value_candidate(self@.global, (#[trigger] cand@[a]).1@),
                forall|a: int|
                    0 <= a < cand@.len() ==> (#[trigger] cand@[a]).0 == lev(cand@[a].1@, search@)
                        && cand@[a].0 <= 3,
                forall|a: int|
                    0 <= a < cand@.len() ==> exists|j: int|
                        0 <= j < idx && (#[trigger] cand@[a]).1@ == self@.global[j].name,
                forall|a: int, b: int| 0 <= a < b < cand@.len() ==> cand@[a].1@ != cand@[b].1@,
                forall|j: int|
                    0 <= j < idx && #[trigger] gidx@[j] == -1 ==> !(value_candidate(
                        self@.global,
                        self@.global[j].name,
                    ) && lev(self@.global[j].name, search@) <= 3),
                forall|j: int|
                    0 <= j < idx && #[trigger] gidx@[j] != -1 ==> 0 <= gidx@[j] < cand@.len()
                        && cand@[gidx@[j]].1@ == self@.global[j].name && cand@[gidx@[j]].0 == lev(
                        self@.global[j].name,
                        search@,
                    ),
            decreases g@.len() - idx,
        {
            let e = g.entry_at(idx);
            let keep: bool = e.definition.is_value();
            proof {
                crate::scope::lemma_unique_find(self@.global, self@.global[idx as int].name, idx as int);
            }
            let ghost gname = self@.global[idx as int].name;
            if keep {
                let d = levenshtein(e.name.as_str(), search);
                if d <= 3 {
                    let ghost old_cand = cand@;
                    cand.push((d, e.name.clone()));
                    proof {
                        gidx@ = gidx@.push(cand@.len() - 1);
                        assert(cand@[cand@.len() - 1].1@ == gname);
                        assert forall|a: int, b: int| 0 <= a < b < cand@.len() implies cand@[a].1@
                            != cand@[b].1@ by {
                            if b == cand@.len() - 1 {
                                let j = choose|j: int|
                                    0 <= j < idx && (#[trigger] old_cand[a]).1@
                                        == self@.global[j].name;
                                assert(self@.global[j].name != self@.global[idx as int].name);
                            }
                        }
                    }
                } else {
                    proof {
                        gidx@ = gidx@.push(-1);
                        assert(lev(gname, search@) > 3);
                    }
                }
            } else {
                proof {
                    gidx@ = gidx@.push(-1);
                    assert(!value_candidate(self@.global, gname));
                }
            }
            idx = idx + 1;
        }
        let ghost cand_view = cand@;
        let ghost qualifies = |n: Seq<char>| value_candidate(self@.global, n);
        let (sorted, src, dst) = rank_sort(cand, Ghost(search@));
        let mut out: Vec<String> = Vec::new();
        let mut i: usize = 0;
        while i < sorted.len()
            invariant
                i <= sorted@.len(),
                out@.len() == i,
                forall|a: int| 0 <= a < i ==> (#[trigger] out@[a])@ == sorted@[a].1@,
            decreases sorted@.len() - i,
        {
            out.push(sorted[i].1.clone());
            i = i + 1;
        }
        proof {
            lemma_post_transfer(out@, sorted@, src@, cand_view, search@, qualifies);
            assert forall|n: Seq<char>| #[trigger] qualifies(n) && lev(n, search@) <= 3 implies (
            exists|ii: int| 0 <= ii < out@.len() && (#[trigger] out@[ii])@ == n) || (out@.len() == 3
                && forall|ii: int|
                0 <= ii < out@.len() ==> rank_le(search@, (#[trigger] out@[ii])@, n)) by {
                crate::scope::lemma_find_idx_props(self@.global, n);
                let j = crate::scope::find_idx(self@.global, n);
                assert(0 <= j < self@.global.len());
                assert(self@.global[j].name == n);
                assert(gidx@[j] != -1);
                let b = gidx@[j];
                assert(cand_view[b].1@ == n && cand_view[b].0 == lev(n, search@));
                let a = dst@[b];
                if a < sorted@.len() {
                    assert(sorted@[a].1@ == n);
                    assert(out@[a]@ == n);
                } else {
                    assert(sorted@.len() == 3);
                    assert forall|ii: int| 0 <= ii < out@.len() implies rank_le(
                        search@,
                        (#[trigger] out@[ii])@,
                        n,
                    ) by {
                        assert(pair_le(search@, sorted@[ii], cand_view[b]));
                        assert(0 <= src@[ii] < cand_view.len());
                        assert(sorted@[ii].0 == cand_view[src@[ii]].0 && sorted@[ii].1@
                            == cand_view[src@[ii]].1@);
                        assert(cand_view[src@[ii]].0 == lev(cand_view[src@[ii]].1@, search@));
                        assert(cand_view[b].0 == lev(n, search@));
                    }
                }
            }
        }
        out
    }
}

/// Ranking over scored candidates.
pub open spec fn pair_le(search: Seq<char>, a: (usize, String), b: (usize, String)) -> bool {
    a.0 < b.0 || (a.0 == b.0 && lex_le(a.1@, b.1@))
}

fn pair_le_exec(search: Ghost<Seq<char>>, a: &(usize, String), b: &(usize, String)) -> (r: bool)
    ensures
        r == pair_le(search@, *a, *b),
{
    a.0 < b.0 || (a.0 == b.0 && str_lex_le(a.1.as_str(), b.1.as_str()))
}

/// What collecting and sorting promise of every kept name: qualifying,
/// close to the query, distinct, in ascending rank.
proof fn lemma_post_transfer(
    out: Seq<String>,
    sorted: Seq<(usize, String)>,
    src: Seq<int>,
    cand: Seq<(usize, String)>,
    search: Seq<char>,
    qualifies: spec_fn(Seq<char>) -> bool,
)
    requires
        out.len() == sorted.len(),
        forall|a: int| 0 <= a < out.len() ==> (#[trigger] out[a])@ == sorted[a].1@,
        sorted.len() <= 3,
        src.len() == sorted.len(),
        forall|a: int|
            0 <= a < sorted.len() ==> 0 <= #[trigger] src[a] < cand.len() && sorted[a].0
                == cand[src[a]].0 && sorted[a].1@ == cand[src[a]].1@,
        forall|b: int| 0 <= b < cand.len() ==> qualifies((#[trigger] cand[b]).1@),
        forall|b: int|
            0 <= b < cand.len() ==> (#[trigger] cand[b]).0 == lev(cand[b].1@, search)
                && cand[b].0 <= 3,
        forall|a: int, b: int|
            0 <= a < b < sorted.len() ==> pair_le(search, #[trigger] sorted[a], #[trigger] sorted[b]),
        forall|a: int, b: int| 0 <= a < b < sorted.len() ==> sorted[a].1@ != sorted[b].1@,
    ensures
        out.len() <= 3,
        forall|i: int| 0 <= i < out.len() ==> qualifies((#[trigger] out[i])@),
        forall|i: int| 0 <= i < out.len() ==> lev((#[trigger] out[i])@, search) <= 3,
        forall|i: int, j: int| 0 <= i < j < out.len() ==> rank_le(search, out[i]@, out[j]@),
        forall|i: int, j: int| 0 <= i < j < out.len() ==> out[i]@ != out[j]@,
{
    assert forall|i: int| 0 <= i < out.len() implies qualifies((#[trigger] out[i])@) && lev(
        out[i]@,
        search,
    ) <= 3 by {
        assert(out[i]@ == cand[src[i]].1@);
    }
    assert forall|i: int, j: int| 0 <= i < j < out.len() implies rank_le(search, out[i]@, out[j]@) by {
        assert(pair_le(search, sorted[i], sorted[j]));
        assert(sorted[i].0 == cand[src[i]].0 && sorted[i].1@ == cand[src[i]].1@);
        assert(sorted[j].0 == cand[src[j]].0 && sorted[j].1@ == cand[src[j]].1@);
        assert(sorted[i].0 == lev(sorted[i].1@, search));
        assert(sorted[j].0 == lev(sorted[j].1@, search));
    }
}

/// Sorts scored candidates ascending by rank and keeps the least three;
/// also says where each kept entry came from.
fn rank_sort(cand: Vec<(usize, String)>, search: Ghost<Seq<char>>) -> (res: (
    Vec<(usize, String)>,
    Ghost<Seq<int>>,
    Ghost<Seq<int>>,
))
    requires
        forall|a: int, b: int| 0 <= a < b < cand@.len() ==> cand@[a].1@ != cand@[b].1@,
    ensures
        res.2@.len() == cand@.len(),
        forall|b: int|
            0 <= b < cand@.len() && #[trigger] res.2@[b] < res.0@.len() ==> 0 <= res.2@[b]
                && res.0@[res.2@[b]].0 == cand@[b].0 && res.0@[res.2@[b]].1@ == cand@[b].1@,
        forall|b: int|
            0 <= b < cand@.len() && #[trigger] res.2@[b] >= res.0@.len() ==> res.0@.len() == 3
                && forall|x: int|
                0 <= x < res.0@.len() ==> pair_le(search@, #[trigger] res.0@[x], cand@[b]),
        res.0@.len() <= 3,
        res.0@.len() == if cand@.len() <= 3 {
            cand@.len() as int
        } else {
            3
        },
        res.1@.len() == res.0@.len(),
        forall|a: int|
            0 <= a < res.0@.len() ==> 0 <= #[trigger] res.1@[a] < cand@.len() && res.0@[a].0
                == cand@[res.1@[a]].0 && res.0@[a].1@ == cand@[res.1@[a]].1@,
        forall|a: int, b: int|
            0 <= a < b < res.0@.len() ==> pair_le(search@, #[trigger] res.0@[a], #[trigger] res.0@[b]),
        forall|a: int, b: int| 0 <= a < b < res.0@.len() ==> res.0@[a].1@ != res.0@[b].1@,
{
    let mut sorted: Vec<(usize, String)> = Vec::new();
    let mut src: Ghost<Seq<int>> = Ghost(Seq::empty());
    let mut dst: Ghost<Seq<int>> = Ghost(Seq::empty());
    let mut i: usize = 0;
    while i < cand.len()
        invariant
            i <= cand@.len(),
            sorted@.len() == i,
            src@.len() == i,
            dst@.len() == i,
            forall|b: int|
                0 <= b < i ==> 0 <= #[trigger] dst@[b] < sorted@.len() && sorted@[dst@[b]].0
                    == cand@[b].0 && sorted@[dst@[b]].1@ == cand@[b].1@,
            forall|a: int, b: int| 0 <= a < b < cand@.len() ==> cand@[a].1@ != cand@[b].1@,
            forall|a: int|
                0 <= a < sorted@.len() ==> 0 <= #[trigger] src@[a] < i && sorted@[a].0
                    == cand@[src@[a]].0 && sorted@[a].1@ == cand@[src@[a]].1@,
            forall|a: int, b: int|
                0 <= a < b < sorted@.len() ==> pair_le(
                    search@,
                    #[trigger] sorted@[a],
                    #[trigger] sorted@[b],
                ),
            forall|a: int, b: int| 0 <= a < b < sorted@.len() ==> sorted@[a].1@ != sorted@[b].1@,
        decreases cand@.len() - i,
    {
        let c = (cand[i].0, cand[i].1.clone());
        let ghost old_sorted = sorted@;
        let ghost old_src = src@;
        let mut k: usize = 0;
        while k < sorted.len() && pair_le_exec(search, &sorted[k], &c)
            invariant
                i < cand@.len(),
                k <= sorted@.len(),
                sorted@ == old_sorted,
                c.0 == cand@[i as int].0,
                c.1@ == cand@[i as int].1@,
                forall|j: int| 0 <= j < k ==> pair_le(search@, #[trigger] sorted@[j], c),
            decreases sorted@.len() - k,
        {
            k = k + 1;
        }
        proof {
            if k < old_sorted.len() {
                lemma_pair_total(search@, old_sorted[k as int], c);
            }
        }
        sorted.insert(k, c);
        src = Ghost(src@.insert(k as int, i as int));
        let ghost old_dst = dst@;
        dst = Ghost(
            Seq::new(
                old_dst.len(),
                |b: int|
                    if old_dst[b] >= k {
                        old_dst[b] + 1
                    } else {
                        old_dst[b]
                    },
            ).push(k as int),
        );
        proof {
            lemma_insert_index(old_sorted, sorted@, c, k as int);
            assert forall|b: int| 0 <= b < i + 1 implies 0 <= #[trigger] dst@[b] < sorted@.len()
                && sorted@[dst@[b]].0 == cand@[b].0 && sorted@[dst@[b]].1@ == cand@[b].1@ by {
                if b < i {
                    let od = old_dst[b];
                    if od >= k {
                        assert(dst@[b] == od + 1);
                        assert(sorted@[od + 1] == old_sorted[od]);
                    } else {
                        assert(dst@[b] == od);
                        assert(sorted@[od] == old_sorted[od]);
                    }
                } else {
                    assert(dst@[b] == k);
                    assert(sorted@[k as int] == c);
                }
            }
            old_src.insert_ensures(k as int, i as int);
            assert forall|a: int| k < a < src@.len() implies #[trigger] src@[a] == old_src[a - 1] by {
                assert(src@[(a - 1) + 1] == old_src[a - 1]);
            }
            lemma_insert_sorted(search@, old_sorted, sorted@, c, k as int);
            assert forall|a: int| 0 <= a < sorted@.len() implies 0 <= #[trigger] src@[a] < i + 1
                && sorted@[a].0 == cand@[src@[a]].0 && sorted@[a].1@ == cand@[src@[a]].1@ by {
                if a < k {
                    assert(sorted@[a] == old_sorted[a]);
                    assert(src@[a] == old_src[a]);
                } else if a == k {
                    assert(sorted@[a] == c);
                    assert(src@[a] == i as int);
                } else {
                    assert(sorted@[a] == old_sorted[a - 1]);
                    assert(src@[a] == old_src[a - 1]);
                }
            }
            assert forall|a: int, b: int| 0 <= a < b < sorted@.len() implies sorted@[a].1@
                != sorted@[b].1@ by {
                if a == k || b == k {
                    let other = if a == k {
                        b
                    } else {
                        a
                    };
                    assert(0 <= src@[other] < i);
                    assert(sorted@[other].1@ == cand@[src@[other]].1@);
                    assert(cand@[src@[other]].1@ != cand@[i as int].1@);
                } else {
                    let sa = if a < k {
                        a
                    } else {
                        a - 1
                    };
                    let sb = if b < k {
                        b
                    } else {
                        b - 1
                    };
                    assert(sorted@[a] == old_sorted[sa]);
                    assert(sorted@[b] == old_sorted[sb]);
                }
            }
        }
        i = i + 1;
    }
    let ghost full = sorted@;
    while sorted.len() > 3
        invariant
            src@.len() == sorted@.len(),
            cand@.len() <= 3 ==> sorted@.len() == cand@.len(),
            cand@.len() > 3 ==> 3 <= sorted@.len() <= cand@.len(),
            sorted@.len() <= full.len(),
            sorted@ == full.take(sorted@.len() as int),
            dst@.len() == cand@.len(),
            forall|b: int|
                0 <= b < cand@.len() ==> 0 <= #[trigger] dst@[b] < full.len() && full[dst@[b]].0
                    == cand@[b].0 && full[dst@[b]].1@ == cand@[b].1@,
            forall|a: int, b: int|
                0 <= a < b < full.len() ==> pair_le(search@, #[trigger] full[a], #[trigger] full[b]),
            forall|a: int|
                0 <= a < sorted@.len() ==> 0 <= #[trigger] src@[a] < cand@.len() && sorted@[a].0
                    == cand@[src@[a]].0 && sorted@[a].1@ == cand@[src@[a]].1@,
            forall|a: int, b: int|
                0 <= a < b < sorted@.len() ==> pair_le(
                    search@,
                    #[trigger] sorted@[a],
                    #[trigger] sorted@[b],
                ),
            forall|a: int, b: int| 0 <= a < b < sorted@.len() ==> sorted@[a].1@ != sorted@[b].1@,
        decreases sorted@.len(),
    {
        let ghost before = sorted@;
        let _ = sorted.pop();
        src = Ghost(src@.take(src@.len() - 1));
        proof {
            assert(sorted@ =~= before.take(before.len() - 1));
            assert(sorted@ =~= full.take(sorted@.len() as int));
        }
    }
    proof {
        assert(full.take(full.len() as int) =~= full);
        assert forall|b: int|
            0 <= b < cand@.len() && #[trigger] dst@[b] < sorted@.len() implies 0 <= dst@[b]
            && sorted@[dst@[b]].0 == cand@[b].0 && sorted@[dst@[b]].1@ == cand@[b].1@ by {
            assert(sorted@[dst@[b]] == full[dst@[b]]);
        }
        assert forall|b: int|
            0 <= b < cand@.len() && #[trigger] dst@[b] >= sorted@.len() implies sorted@.len() == 3
            && forall|x: int|
            0 <= x < sorted@.len() ==> pair_le(search@, #[trigger] sorted@[x], cand@[b]) by {
            assert(dst@[b] < full.len());
            assert(full.len() > sorted@.len());
            assert forall|x: int| 0 <= x < sorted@.len() implies pair_le(
                search@,
                #[trigger] sorted@[x],
                cand@[b],
            ) by {
                assert(sorted@[x] == full[x]);
                assert(pair_le(search@, full[x], full[dst@[b]]));
                lemma_pair_le_compat(search@, full[x], full[dst@[b]], cand@[b]);
            }
        }
    }
    (sorted, src, dst)
}

/// The ranking looks only at the score and the name's characters.
proof fn lemma_pair_le_compat(
    search: Seq<char>,
    x: (usize, String),
    a: (usize, String),
    b: (usize, String),
)
    requires
        pair_le(search, x, a),
        a.0 == b.0,
        a.1@ == b.1@,
    ensures
        pair_le(search, x, b),
{
}

/// Indexing after an insertion.
proof fn lemma_insert_index(
    old_sorted: Seq<(usize, String)>,
    s: Seq<(usize, String)>,
    c: (usize, String),
    k: int,
)
    requires
        0 <= k <= old_sorted.len(),
        s == old_sorted.insert(k, c),
    ensures
        s.len() == old_sorted.len() + 1,
        forall|a: int| 0 <= a < k ==> #[trigger] s[a] == old_sorted[a],
        s[k] == c,
        forall|a: int| k < a < s.len() ==> #[trigger] s[a] == old_sorted[a - 1],
{
    old_sorted.insert_ensures(k, c);
    assert forall|a: int| k < a < s.len() implies #[trigger] s[a] == old_sorted[a - 1] by {
        assert(s[(a - 1) + 1] == old_sorted[a - 1]);
    }
}

/// Insertion at the found position keeps the list sorted.
proof fn lemma_insert_sorted(
    search: Seq<char>,
    old_sorted: Seq<(usize, String)>,
    s: Seq<(usize, String)>,
    c: (usize, String),
    k: int,
)
    requires
        0 <= k <= old_sorted.len(),
        s == old_sorted.insert(k, c),
        forall|j: int| 0 <= j < k ==> pair_le(search, #[trigger] old_sorted[j], c),
        k < old_sorted.len() ==> pair_le(search, c, old_sorted[k]),
        forall|a: int, b: int|
            0 <= a < b < old_sorted.len() ==> pair_le(
                search,
                #[trigger] old_sorted[a],
                #[trigger] old_sorted[b],
            ),
    ensures
        forall|a: int, b: int|
            0 <= a < b < s.len() ==> pair_le(search, #[trigger] s[a], #[trigger] s[b]),
{
    lemma_insert_index(old_sorted, s, c, k);
    assert forall|a: int, b: int| 0 <= a < b < s.len() implies pair_le(
        search,
        #[trigger] s[a],
        #[trigger] s[b],
    ) by {
        if b == k {
            assert(s[a] == old_sorted[a]);
        } else if a == k {
            assert(s[b] == old_sorted[b - 1]);
            assert(k <= b - 1 < old_sorted.len());
            if k < b - 1 {
                lemma_pair_trans(search, c, old_sorted[k], old_sorted[b - 1]);
            }
        } else if a < k && b > k {
            assert(s[a] == old_sorted[a]);
            assert(s[b] == old_sorted[b - 1]);
            if a == b - 1 {
                assert(pair_le(search, old_sorted[a], c));
                lemma_pair_trans(search, old_sorted[a], c, old_sorted[k]);
            }
        } else {
            let sa = if a < k {
                a
            } else {
                a - 1
            };
            let sb = if b < k {
                b
            } else {
                b - 1
            };
            assert(s[a] == old_sorted[sa]);
            assert(s[b] == old_sorted[sb]);
        }
    }
}

/// The ranking is total.
proof fn lemma_pair_total(search: Seq<char>, a: (usize, String), b: (usize, String))
    ensures
        pair_le(search, a, b) || pair_le(search, b, a),
{
    lemma_lex_total(a.1@, b.1@);
}

/// The ranking is transitive.
proof fn lemma_pair_trans(
    search: Seq<char>,
    a: (usize, String),
    b: (usize, String),
    c: (usize, String),
)
    requires
        pair_le(search, a, b),
        pair_le(search, b, c),
    ensures
        pair_le(search, a, c),
{
    if a.0 == b.0 && b.0 == c.0 {
        lemma_lex_le_trans(a.1@, b.1@, c.1@);
    }
}

} // verus!
