//! Source positions: a byte/line/column point, a workspace-relative file
//! path, and the span a token covers.

use vstd::prelude::*;

verus! {

/// A point in a source file: byte offset plus one-based line and column.
#[derive(Clone, Copy, PartialEq, Eq, Structural, Debug)]
pub struct LineCol {
    pub offset: usize,
    pub line: usize,
    pub col: usize,
}

impl LineCol {
    pub fn new(offset: usize, line: usize, col: usize) -> (r: LineCol)
        ensures
            r == (LineCol { offset, line, col }),
    {
        LineCol { offset, line, col }
    }
}

/// A file identity inside the workspace: its path, and the owning project's
/// declared prefix where the file belongs to a known project.
pub struct WorkspacePath {
    pub path: String,
    pub prefix: Option<String>,
}

/// The index of the last `/` in `s`, or `-1` if there is none.
pub open spec fn last_slash(s: Seq<char>) -> int
    decreases s.len(),
{
    if s.len() == 0 {
        -1
    } else if s[s.len() - 1] == '/' {
        s.len() - 1
    } else {
        last_slash(s.take(s.len() - 1))
    }
}

/// The part of `s` after its last `/`.
pub open spec fn spec_filename(s: Seq<char>) -> Seq<char> {
    s.subrange(last_slash(s) + 1, s.len() as int)
}

proof fn lemma_last_slash_bounds(s: Seq<char>)
    ensures
        -1 <= last_slash(s) < s.len(),
    decreases s.len(),
{
    if s.len() > 0 && s[s.len() - 1] != '/' {
        lemma_last_slash_bounds(s.take(s.len() - 1));
    }
}

impl Clone for WorkspacePath {
    fn clone(&self) -> (r: Self)
        ensures
            r == *self,
    {
        WorkspacePath {
            path: self.path.clone(),
            prefix: match &self.prefix {
                Some(p) => Some(p.clone()),
                None => None,
            },
        }
    }
}

impl WorkspacePath {
    pub fn new(path: String, prefix: Option<String>) -> (r: WorkspacePath)
        ensures
            r == (WorkspacePath { path, prefix }),
    {
        WorkspacePath { path, prefix }
    }

    pub open spec fn spec_path(&self) -> Seq<char> {
        self.path@
    }

    pub open spec fn spec_prefix(&self) -> Option<String> {
        self.prefix
    }

    pub fn as_str(&self) -> (r: &str)
        ensures
            r@ == self.spec_path(),
    {
        self.path.as_str()
    }

    pub fn project_prefix(&self) -> (r: &Option<String>)
        ensures
            r == self.prefix,
    {
        &self.prefix
    }

    /// Whether two paths name the same file.
    pub fn same_file(&self, other: &WorkspacePath) -> (r: bool)
        ensures
            r == (self.spec_path() == other.spec_path()),
    {
        crate::strings::str_eq(self.path.as_str(), other.path.as_str())
    }

    /// The file name: everything after the last `/` of the path.
    pub fn filename(&self) -> (r: String)
        ensures
            r@ == spec_filename(self.spec_path()),
    {
        let s = self.path.as_str();
        let len = s.unicode_len();
        let mut i: usize = len;
        proof {
            assert(s@.take(len as int) =~= s@);
        }
        while i > 0
            invariant
                i <= len,
                len == s@.len(),
                s@ == self.spec_path(),
                last_slash(s@) == last_slash(s@.take(i as int)),
            decreases i,
        {
            let c = s.get_char(i - 1);
            if c == '/' {
                proof {
                    assert(s@.take(i as int)[i - 1] == s@[i - 1]);
                    assert(s@.take(i as int).len() == i);
                    assert(last_slash(s@.take(i as int)) == i - 1);
                    assert(last_slash(s@) == i - 1);
                }
                let tail = s.substring_char(i, len);
                proof {
                    assert(tail@ == s@.subrange(i as int, len as int));
                    assert(tail@ =~= spec_filename(s@));
                }
                return tail.to_owned();
            }
            proof {
                assert(s@.take(i as int)[i - 1] == s@[i - 1]);
                assert(s@.take(i as int).take(i - 1 as int) =~= s@.take(i - 1 as int));
            }
            i = i - 1;
        }
        proof {
            assert(s@.take(0) =~= Seq::<char>::empty());
            lemma_last_slash_bounds(s@);
            assert(last_slash(s@) == -1);
        }
        let tail = s.substring_char(0, len);
        proof {
            assert(tail@ =~= spec_filename(s@));
        }
        tail.to_owned()
    }
}

/// The region of a source file a token covers.
pub struct Position {
    pub start: LineCol,
    pub end: LineCol,
    pub path: WorkspacePath,
}

impl Clone for Position {
    fn clone(&self) -> (r: Self)
        ensures
            r == *self,
    {
        Position { start: self.start, end: self.end, path: self.path.clone() }
    }
}

impl Position {
    pub fn new(start: LineCol, end: LineCol, path: WorkspacePath) -> (r: Position)
        ensures
            r == (Position { start, end, path }),
    {
        Position { start, end, path }
    }

    pub open spec fn spec_start(&self) -> LineCol {
        self.start
    }

    pub open spec fn spec_end(&self) -> LineCol {
        self.end
    }

    pub open spec fn spec_path(&self) -> Seq<char> {
        self.path.spec_path()
    }

    pub fn start(&self) -> (r: LineCol)
        ensures
            r == self.start,
    {
        self.start
    }

    pub fn end(&self) -> (r: LineCol)
        ensures
            r == self.end,
    {
        self.end
    }

    pub fn path(&self) -> (r: &WorkspacePath)
        ensures
            r == self.path,
    {
        &self.path
    }

    /// The byte-offset span `start..end`.
    pub fn span(&self) -> (r: (usize, usize))
        ensures
            r.0 == self.start.offset,
            r.1 == self.end.offset,
    {
        (self.start.offset, self.end.offset)
    }
}

} // verus!
