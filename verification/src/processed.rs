//! Provenance for the expanded stream: a registry of every source text read
//! during expansion, and a total mapping from expanded-stream offsets back to
//! the original tokens that produced them.

use vstd::prelude::*;
use crate::position::{LineCol, Position, WorkspacePath};
use crate::token::Token;

verus! {

/// One provenance record: the expanded-stream character range
/// `processed_start..processed_end` came from `token`, read from the
/// registered source `source`; `via` is the macro-invocation token the range
/// was expanded through, where there was one.
pub struct Mapping {
    pub processed_start: usize,
    pub processed_end: usize,
    pub token: Token,
    pub source: usize,
    pub via: Option<Token>,
}

impl Clone for Mapping {
    fn clone(&self) -> (r: Self)
        ensures
            r == *self,
    {
        Mapping {
            processed_start: self.processed_start,
            processed_end: self.processed_end,
            token: self.token.clone(),
            source: self.source,
            via: match &self.via {
                Some(t) => Some(t.clone()),
                None => None,
            },
        }
    }
}

impl Mapping {
    /// Whether the record covers the expanded-stream offset.
    pub open spec fn spec_contains(&self, offset: nat) -> bool {
        self.processed_start <= offset < self.processed_end
    }

    pub fn token(&self) -> (r: &Token)
        ensures
            r == self.token,
    {
        &self.token
    }

    pub fn source(&self) -> (r: usize)
        ensures
            r == self.source,
    {
        self.source
    }

    /// The original position the mapped range came from.
    pub fn original(&self) -> (r: &Position)
        ensures
            r == self.token.position,
    {
        self.token.position()
    }

    /// The original column, for report anchoring.
    pub fn original_column(&self) -> (r: usize)
        ensures
            r == self.token.position.start.col,
    {
        self.token.position().start().col
    }

    /// The original start point.
    pub fn original_start(&self) -> (r: LineCol)
        ensures
            r == self.token.position.start,
    {
        self.token.position().start()
    }
}

/// The index of the first record covering `offset`, or `-1`.
pub open spec fn map_idx(ms: Seq<Mapping>, offset: nat) -> int
    decreases ms.len(),
{
    if ms.len() == 0 {
        -1
    } else if ms[0].spec_contains(offset) {
        0
    } else {
        let r = map_idx(ms.skip(1), offset);
        if r == -1 {
            -1
        } else {
            r + 1
        }
    }
}

pub broadcast proof fn lemma_map_idx_props(ms: Seq<Mapping>, offset: nat)
    ensures
        -1 <= #[trigger] map_idx(ms, offset) < ms.len(),
        map_idx(ms, offset) >= 0 ==> ms[map_idx(ms, offset)].spec_contains(offset),
        map_idx(ms, offset) == -1 ==> forall|i: int|
            0 <= i < ms.len() ==> !(#[trigger] ms[i].spec_contains(offset)),
    decreases ms.len(),
{
    if ms.len() > 0 && !ms[0].spec_contains(offset) {
        lemma_map_idx_props(ms.skip(1), offset);
        if map_idx(ms.skip(1), offset) == -1 {
            assert forall|i: int| 0 <= i < ms.len() implies !ms[i].spec_contains(offset) by {
                if i > 0 {
                    assert(ms.skip(1)[i - 1] == ms[i]);
                }
            }
        }
    }
}

pub proof fn lemma_map_idx_first(ms: Seq<Mapping>, offset: nat, i: int)
    requires
        0 <= i < ms.len(),
        ms[i].spec_contains(offset),
        forall|j: int| 0 <= j < i ==> !(#[trigger] ms[j].spec_contains(offset)),
    ensures
        map_idx(ms, offset) == i,
    decreases i,
{
    if i > 0 {
        assert forall|j: int| 0 <= j < i - 1 implies !ms.skip(1)[j].spec_contains(offset) by {
            assert(ms.skip(1)[j] == ms[j + 1]);
        }
        assert(ms.skip(1)[i - 1] == ms[i]);
        lemma_map_idx_first(ms.skip(1), offset, i - 1);
    }
}

/// Whether some registered source holds the file named by `path`.
pub open spec fn spec_has_source(sources: Seq<(WorkspacePath, String)>, path: Seq<char>) -> bool {
    exists|i: int| 0 <= i < sources.len() && (#[trigger] sources[i]).0.spec_path() == path
}

/// The provenance entry at `offset`, if one was recorded.
pub open spec fn spec_mapping(ms: Seq<Mapping>, offset: nat) -> Option<Mapping> {
    if map_idx(ms, offset) >= 0 {
        Some(ms[map_idx(ms, offset)])
    } else {
        None
    }
}

/// The registry of the sources read during expansion, plus the ordered
/// mapping from expanded-stream offsets back to original tokens.
pub struct Processed {
    pub sources: Vec<(WorkspacePath, String)>,
    pub mappings: Vec<Mapping>,
    pub total: usize,
}

impl Processed {
    /// The mapping is total over every emitted offset: records are adjacent,
    /// start at offset zero, end at `total`, and each points at a registered
    /// source holding the file its token came from.
    pub open spec fn wf(&self) -> bool {
        &&& forall|i: int|
            0 <= i < self.mappings@.len() ==> (#[trigger] self.mappings@[i]).processed_start
                < self.mappings@[i].processed_end
        &&& forall|i: int|
            0 <= i < self.mappings@.len() - 1 ==> (#[trigger] self.mappings@[i]).processed_end
                == self.mappings@[i + 1].processed_start
        &&& forall|i: int|
            0 <= i < self.mappings@.len() ==> (#[trigger] self.mappings@[i]).processed_end
                <= self.total
        &&& (self.mappings@.len() == 0 ==> self.total == 0)
        &&& (self.mappings@.len() > 0 ==> self.mappings@[0].processed_start == 0
            && self.mappings@.last().processed_end == self.total)
        &&& forall|i: int|
            0 <= i < self.mappings@.len() ==> (#[trigger] self.mappings@[i]).source
                < self.sources@.len()
        &&& forall|i: int|
            0 <= i < self.mappings@.len() ==> (#[trigger] self.mappings@[i]).token.position.spec_path()
                == self.sources@[self.mappings@[i].source as int].0.spec_path()
        &&& forall|i: int, j: int|
            0 <= i < j < self.sources@.len() ==> self.sources@[i].0.spec_path()
                != self.sources@[j].0.spec_path()
    }

    pub fn new() -> (r: Processed)
        ensures
            r.wf(),
            r.sources@ =~= Seq::<(WorkspacePath, String)>::empty(),
            r.mappings@ =~= Seq::<Mapping>::empty(),
            r.total == 0,
    {
        Processed { sources: Vec::new(), mappings: Vec::new(), total: 0 }
    }

    /// The registered id of the source named by `path`.
    pub fn source_id_of(&self, path: &WorkspacePath) -> (r: Option<usize>)
        ensures
            match r {
                Some(i) => i < self.sources@.len() && self.sources@[i as int].0.spec_path()
                    == path.spec_path(),
                None => forall|i: int|
                    0 <= i < self.sources@.len() ==> (#[trigger] self.sources@[i]).0.spec_path()
                        != path.spec_path(),
            },
    {
        let mut i: usize = 0;
        while i < self.sources.len()
            invariant
                i <= self.sources@.len(),
                forall|j: int|
                    0 <= j < i ==> (#[trigger] self.sources@[j]).0.spec_path() != path.spec_path(),
            decreases self.sources@.len() - i,
        {
            if self.sources[i].0.same_file(path) {
                return Some(i);
            }
            i = i + 1;
        }
        None
    }

    /// Registers a source text, returning its id; a path already registered
    /// keeps its first registration.
    pub fn add_source(&mut self, path: WorkspacePath, text: String) -> (r: usize)
        requires
            old(self).wf(),
        ensures
            final(self).wf(),
            final(self).mappings == old(self).mappings,
            final(self).total == old(self).total,
            r < final(self).sources@.len(),
            final(self).sources@[r as int].0.spec_path() == path.spec_path(),
            forall|i: int|
                0 <= i < old(self).sources@.len() ==> final(self).sources@[i] == old(
                    self,
                ).sources@[i],
    {
        match self.source_id_of(&path) {
            Some(i) => i,
            None => {
                let i = self.sources.len();
                self.sources.push((path, text));
                i
            },
        }
    }

    pub fn source(&self, id: usize) -> (r: Option<&(WorkspacePath, String)>)
        ensures
            match r {
                Some(p) => id < self.sources@.len() && *p == self.sources@[id as int],
                None => id >= self.sources@.len(),
            },
    {
        if id < self.sources.len() {
            Some(&self.sources[id])
        } else {
            None
        }
    }

    pub fn total_len(&self) -> (r: usize)
        ensures
            r == self.total,
    {
        self.total
    }

    /// Records that the next `len` emitted characters came from `token`,
    /// through the invocation `via`. Fails exactly when the token's file was
    /// never registered or the stream length would overflow.
    #[verifier::rlimit(100)]
    pub fn append_token(&mut self, token: &Token, len: usize, via: Option<Token>) -> (ok: bool)
        requires
            old(self).wf(),
        ensures
            final(self).wf(),
            final(self).sources == old(self).sources,
            len == 0 ==> ok,
            len > 0 ==> ok == (spec_has_source(old(self).sources@, token.position.spec_path())
                && old(self).total + len <= usize::MAX),
            ok ==> len == 0 ==> *final(self) == *old(self),
            ok ==> len > 0 ==> {
                &&& final(self).total == old(self).total + len
                &&& final(self).mappings@.len() == old(self).mappings@.len() + 1
                &&& forall|i: int|
                    0 <= i < old(self).mappings@.len() ==> final(self).mappings@[i] == old(
                        self,
                    ).mappings@[i]
                &&& final(self).mappings@.last() == (Mapping {
                    processed_start: old(self).total,
                    processed_end: (old(self).total + len) as usize,
                    token: *token,
                    source: final(self).mappings@.last().source,
                    via,
                })
                &&& final(self).sources@[final(self).mappings@.last().source as int].0.spec_path()
                    == token.position.spec_path()
            },
            !ok ==> *final(self) == *old(self),
    {
        if len == 0 {
            return true;
        }
        let source = match self.source_id_of(token.position().path()) {
            Some(i) => i,
            None => {
                return false;
            },
        };
        if self.total > usize::MAX - len {
            return false;
        }
        let start = self.total;
        let end = self.total + len;
        let m = Mapping {
            processed_start: start,
            processed_end: end,
            token: token.clone(),
            source,
            via,
        };
        self.mappings.push(m);
        self.total = end;
        true
    }

    /// The registered source texts as the renderer sees them.
    pub open spec fn spec_texts(&self) -> Seq<(Seq<char>, Seq<char>)> {
        self.sources@.map_values(|s: (WorkspacePath, String)| (s.0.spec_path(), s.1@))
    }

    /// The registered sources as plain path/text pairs, for quoting in a
    /// rendered report.
    pub fn sources_list(&self) -> (r: Vec<(String, String)>)
        ensures
            r@.len() == self.sources@.len(),
            forall|i: int|
                0 <= i < r@.len() ==> (#[trigger] r@[i]).0@ == self.sources@[i].0.spec_path()
                    && r@[i].1@ == self.sources@[i].1@,
            crate::report::spec_sources(r@) == self.spec_texts(),
    {
        let mut r: Vec<(String, String)> = Vec::new();
        let mut i: usize = 0;
        while i < self.sources.len()
            invariant
                i <= self.sources@.len(),
                r@.len() == i,
                forall|j: int|
                    0 <= j < i ==> (#[trigger] r@[j]).0@ == self.sources@[j].0.spec_path()
                        && r@[j].1@ == self.sources@[j].1@,
            decreases self.sources@.len() - i,
        {
            let s = &self.sources[i];
            r.push((s.0.as_str().to_owned(), s.1.clone()));
            i = i + 1;
        }
        proof {
            assert(crate::report::spec_sources(r@) =~= self.spec_texts());
        }
        r
    }

    /// The provenance entry at/containing the expanded-stream offset.
    pub fn mapping(&self, offset: usize) -> (r: Option<&Mapping>)
        requires
            self.wf(),
        ensures
            match r {
                Some(m) => spec_mapping(self.mappings@, offset as nat) == Some(*m),
                None => spec_mapping(self.mappings@, offset as nat) is None,
            },
            (r is Some) == (offset < self.total),
    {
        let mut i: usize = 0;
        while i < self.mappings.len()
            invariant
                self.wf(),
                i <= self.mappings@.len(),
                forall|j: int|
                    0 <= j < i ==> !(#[trigger] self.mappings@[j].spec_contains(offset as nat)),
            decreases self.mappings@.len() - i,
        {
            let m = &self.mappings[i];
            if m.processed_start <= offset && offset < m.processed_end {
                proof {
                    lemma_map_idx_first(self.mappings@, offset as nat, i as int);
                }
                return Some(m);
            }
            i = i + 1;
        }
        proof {
            lemma_map_idx_props(self.mappings@, offset as nat);
            if map_idx(self.mappings@, offset as nat) >= 0 {
                assert(self.mappings@[map_idx(self.mappings@, offset as nat)].spec_contains(
                    offset as nat,
                ));
            }
            if offset < self.total {
                lemma_cover_one(self.mappings@, offset as nat);
            }
        }
        None
    }
}

proof fn lemma_cover_one(ms: Seq<Mapping>, offset: nat)
    requires
        ms.len() > 0,
        ms[0].processed_start == 0,
        forall|i: int|
            0 <= i < ms.len() ==> (#[trigger] ms[i]).processed_start < ms[i].processed_end,
        forall|i: int|
            0 <= i < ms.len() - 1 ==> (#[trigger] ms[i]).processed_end == ms[i + 1].processed_start,
        offset < ms.last().processed_end,
    ensures
        exists|i: int| 0 <= i < ms.len() && (#[trigger] ms[i]).spec_contains(offset),
    decreases ms.len(),
{
    if ms.last().spec_contains(offset) {
        assert(ms[ms.len() - 1].spec_contains(offset));
    } else {
        assert(offset < ms.last().processed_start);
        let front = ms.drop_last();
        assert(ms.len() >= 2);
        assert(front.last() == ms[ms.len() - 2]);
        assert(ms[ms.len() - 2].processed_end == ms[ms.len() - 1].processed_start);
        lemma_cover_one(front, offset);
        let i = choose|i: int|
            0 <= i < front.len() && (#[trigger] front[i]).spec_contains(offset);
        assert(front[i] == ms[i]);
        assert(ms[i].spec_contains(offset));
    }
}

/// Provenance is stable and grounded: the entry at an offset is a function
/// of the mapping alone, so repeated lookups agree; and every entry points at
/// a source that was actually registered, holding the file its token's
/// position names.
pub proof fn lemma_mapping_round_trip(p: &Processed, offset: usize)
    requires
        p.wf(),
    ensures
        match spec_mapping(p.mappings@, offset as nat) {
            Some(m) => {
                &&& m.source < p.sources@.len()
                &&& p.sources@[m.source as int].0.spec_path() == m.token.position.spec_path()
                &&& m.spec_contains(offset as nat)
            },
            None => offset >= p.total,
        },
{
    lemma_map_idx_props(p.mappings@, offset as nat);
    if map_idx(p.mappings@, offset as nat) == -1 {
        if offset < p.total {
            lemma_cover_one(p.mappings@, offset as nat);
        }
    }
}

} // verus!
