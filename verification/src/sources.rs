//! The table of source texts: each text gets an id, and a text read from a path replaces the
//! text read earlier from the same path under the same id.
use vstd::prelude::*;

use crate::conversions::{FromStahlVal, IntoStahlVal};
use crate::values::{ErrorKind, SVal, StahlErr, StahlVal};

verus! {

/// The id of a source text: its position in the table.
#[derive(Clone, Copy, Debug, PartialEq, Eq, Structural)]
pub struct SourceId(pub u32);

impl FromStahlVal for SourceId {
    type Model = SourceId;

    open spec fn model(&self) -> SourceId {
        *self
    }

    /// An integer, cut to 32 unsigned bits as `as` does.
    open spec fn decode(v: SVal) -> Result<SourceId, ErrorKind> {
        match v {
            SVal::Int(i) => Ok(SourceId((i as isize) as u32)),
            _ => Err(ErrorKind::TypeMismatch),
        }
    }

    fn from_stahlval(val: &StahlVal) -> (r: Result<Self, StahlErr>) {
        match val {
            StahlVal::IntV(v) => Ok(SourceId(*v as u32)),
            _ => Err(StahlErr::new(ErrorKind::TypeMismatch, String::from_str("Unable to convert stahlval into source id"))),
        }
    }
}

impl IntoStahlVal for SourceId {
    /// The number of the id.
    open spec fn encode(&self) -> Result<SVal, ErrorKind> {
        self.0.encode()
    }

    fn into_stahlval(self) -> (r: Result<StahlVal, StahlErr>) {
        self.0.into_stahlval()
    }
}

/// Source texts, each with the path it was read from, if any. A path is given as the text of
/// its components.
pub struct InterierSources {
    sources: Vec<String>,
    paths: Vec<Option<String>>,
}

/// The position of the first source read from `p`.
pub open spec fn find_path(paths: Seq<Option<Seq<char>>>, p: Seq<char>) -> Option<int>
    decreases paths.len(),
{
    if paths.len() == 0 {
        None
    } else {
        match find_path(paths.drop_last(), p) {
            Some(i) => Some(i),
            None => if paths.last() == Some(p) {
                Some(paths.len() - 1)
            } else {
                None
            },
        }
    }
}

/// What `find_path` finds: the first position holding `p`.
pub proof fn lemma_find_path(paths: Seq<Option<Seq<char>>>, p: Seq<char>)
    ensures
        match find_path(paths, p) {
            Some(i) => 0 <= i < paths.len() && paths[i] == Some(p) && forall|j: int|
                0 <= j < i ==> #[trigger] paths[j] != Some(p),
            None => forall|j: int| 0 <= j < paths.len() ==> #[trigger] paths[j] != Some(p),
        },
    decreases paths.len(),
{
    if paths.len() > 0 {
        let d = paths.drop_last();
        lemma_find_path(d, p);
        assert forall|j: int| 0 <= j < d.len() implies #[trigger] paths[j] == d[j] by {}
    }
}

/// A path as text, if there is one.
pub open spec fn opt_view(path: Option<String>) -> Option<Seq<char>> {
    match path {
        Some(p) => Some(p@),
        None => None,
    }
}

/// The id that adding a text under `path` gives: that of the path when it is in the table,
/// else the next one.
pub open spec fn added_id(paths: Seq<Option<Seq<char>>>, path: Option<Seq<char>>) -> int {
    match path {
        Some(p) => match find_path(paths, p) {
            Some(i) => i,
            None => paths.len() as int,
        },
        None => paths.len() as int,
    }
}

/// The texts after adding `text` under `path`: it replaces the text of the path when the
/// path is in the table, else it comes last.
pub open spec fn added_texts(
    texts: Seq<Seq<char>>,
    paths: Seq<Option<Seq<char>>>,
    text: Seq<char>,
    path: Option<Seq<char>>,
) -> Seq<Seq<char>> {
    match path {
        Some(p) => match find_path(paths, p) {
            Some(i) => texts.update(i, text),
            None => texts.push(text),
        },
        None => texts.push(text),
    }
}

/// The paths after adding a text under `path`.
pub open spec fn added_paths(paths: Seq<Option<Seq<char>>>, path: Option<Seq<char>>) -> Seq<Option<Seq<char>>> {
    match path {
        Some(p) => match find_path(paths, p) {
            Some(_) => paths,
            None => paths.push(path),
        },
        None => paths.push(path),
    }
}

/// The paths as text.
pub open spec fn paths_view(paths: Seq<Option<String>>) -> Seq<Option<Seq<char>>> {
    Seq::new(paths.len(), |i: int| opt_view(paths[i]))
}

/// Whether no path occurs twice.
pub open spec fn distinct_paths(paths: Seq<Option<Seq<char>>>) -> bool {
    forall|i: int, j: int|
        0 <= i < j < paths.len() && (#[trigger] paths[i]) is Some ==> paths[i] != #[trigger] paths[j]
}

impl InterierSources {
    /// The texts, in the order of their ids.
    pub closed spec fn texts(&self) -> Seq<Seq<char>> {
        Seq::new(self.sources@.len(), |i: int| self.sources@[i]@)
    }

    /// The path of each text, if it has one.
    pub closed spec fn path_of(&self) -> Seq<Option<Seq<char>>> {
        paths_view(self.paths@)
    }

    /// One path for each text, no path twice, and every position fits in an id.
    #[verifier::type_invariant]
    spec fn inv(&self) -> bool {
        &&& self.paths@.len() == self.sources@.len()
        &&& self.sources@.len() <= u32::MAX as int + 1
        &&& distinct_paths(paths_view(self.paths@))
    }

    /// The number of texts.
    pub fn len(&self) -> (n: usize)
        ensures
            n == self.texts().len(),
    {
        self.sources.len()
    }

    /// An empty table.
    pub fn new() -> (t: Self)
        ensures
            t.texts() == Seq::<Seq<char>>::empty(),
            t.path_of() == Seq::<Option<Seq<char>>>::empty(),
    {
        let sources: Vec<String> = Vec::new();
        let paths: Vec<Option<String>> = Vec::new();
        let t = InterierSources { sources, paths };
        assert(t.texts() =~= Seq::<Seq<char>>::empty());
        assert(t.path_of() =~= Seq::<Option<Seq<char>>>::empty());
        t
    }

    /// Adds a text read from `path`, or from nowhere. A path already in the table keeps its id,
    /// and its text is replaced; otherwise the text gets the next id.
    pub fn add_source(&mut self, source: String, path: Option<String>) -> (id: SourceId)
        requires
            old(self).texts().len() <= u32::MAX,
        ensures
            id.0 == added_id(old(self).path_of(), opt_view(path)),
            final(self).texts() == added_texts(old(self).texts(), old(self).path_of(), source@, opt_view(path)),
            final(self).path_of() == added_paths(old(self).path_of(), opt_view(path)),
    {
        proof {
            use_type_invariant(&*self);
        }
        let ghost t0 = self.texts();
        let ghost p0 = self.path_of();
        let ghost pv = opt_view(path);
        let found = match &path {
            Some(p) => {
                proof {
                    lemma_find_path(p0, p@);
                }
                self.get_id(p)
            },
            None => None,
        };
        let mut table = InterierSources::new();
        std::mem::swap(self, &mut table);
        let InterierSources { mut sources, mut paths } = table;
        assert(sources@.len() == t0.len());
        match found {
            Some(found_id) => {
                let i = found_id.0 as usize;
                assert(i as int == find_path(p0, pv->Some_0)->Some_0);
                sources.set(i, source);
                assert(paths_view(paths@) =~= p0);
                let next = InterierSources { sources, paths };
                assert(next.texts() =~= t0.update(i as int, source@));
                *self = next;
                found_id
            },
            None => {
                let index = sources.len();
                sources.push(source);
                paths.push(path);
                proof {
                    lemma_find_path(p0, match pv {
                        Some(q) => q,
                        None => Seq::empty(),
                    });
                }
                assert(paths_view(paths@) =~= p0.push(pv));
                assert(distinct_paths(p0.push(pv))) by {
                    assert forall|i: int, j: int|
                        0 <= i < j < p0.len() + 1 && (#[trigger] p0.push(pv)[i]) is Some implies p0.push(pv)[i]
                        != #[trigger] p0.push(pv)[j] by {
                        if j < p0.len() {
                            assert(p0.push(pv)[i] == p0[i] && p0.push(pv)[j] == p0[j]);
                        } else {
                            assert(p0.push(pv)[i] == p0[i]);
                        }
                    }
                }
                let next = InterierSources { sources, paths };
                assert(next.texts() =~= t0.push(source@));
                *self = next;
                SourceId(index as u32)
            },
        }
    }

    /// The text of an id, if there is one.
    pub fn get(&self, source_id: SourceId) -> (r: Option<&String>)
        ensures
            match r {
                Some(s) => source_id.0 < self.texts().len() && s@ == self.texts()[source_id.0 as int],
                None => source_id.0 >= self.texts().len(),
            },
    {
        let i = source_id.0 as usize;
        if i < self.sources.len() {
            Some(&self.sources[i])
        } else {
            None
        }
    }

    /// The path of an id, if it has one.
    pub fn get_path(&self, source_id: &SourceId) -> (r: Option<String>)
        ensures
            match r {
                Some(p) => source_id.0 < self.path_of().len() && self.path_of()[source_id.0 as int]
                    == Some(p@),
                None => source_id.0 >= self.path_of().len() || self.path_of()[source_id.0 as int]
                    is None,
            },
    {
        let i = source_id.0 as usize;
        if i < self.paths.len() {
            match &self.paths[i] {
                Some(p) => Some(p.clone()),
                None => None,
            }
        } else {
            None
        }
    }

    /// The id of the text read from `path`, if there is one.
    pub fn get_id(&self, path: &String) -> (r: Option<SourceId>)
        ensures
            match find_path(self.path_of(), path@) {
                Some(i) => r == Some(SourceId(i as u32)),
                None => r is None,
            },
    {
        proof {
            use_type_invariant(self);
        }
        let ghost ps = self.path_of();
        proof {
            lemma_find_path(ps, path@);
        }
        let mut i: usize = 0;
        while i < self.paths.len()
            invariant
                i <= self.paths.len(),
                ps == self.path_of(),
                ps.len() == self.paths@.len(),
                self.sources@.len() == self.paths@.len(),
                self.sources@.len() <= u32::MAX as int + 1,
                forall|j: int| 0 <= j < i ==> #[trigger] ps[j] != Some(path@),
            decreases self.paths.len() - i,
        {
            match &self.paths[i] {
                Some(p) => {
                    if *p == *path {
                        assert(ps[i as int] == Some(path@));
                        assert(i < self.texts().len());
                        proof {
                            lemma_find_path(ps, path@);
                        }
                        assert(find_path(ps, path@) == Some(i as int));
                        return Some(SourceId(i as u32));
                    }
                },
                None => {},
            }
            assert(ps[i as int] != Some(path@));
            i = i + 1;
        }
        None
    }
}

/// Adding a text under a path, then looking the path up, gives the id that adding gave, and
/// that id holds the text.
pub proof fn lemma_lookup_after_add(
    texts: Seq<Seq<char>>,
    paths: Seq<Option<Seq<char>>>,
    text: Seq<char>,
    p: Seq<char>,
)
    requires
        paths.len() == texts.len(),
    ensures
        find_path(added_paths(paths, Some(p)), p) == Some(added_id(paths, Some(p))),
        added_texts(texts, paths, text, Some(p))[added_id(paths, Some(p))] == text,
{
    lemma_find_path(paths, p);
    if find_path(paths, p) is None {
        assert(paths.push(Some(p)).drop_last() =~= paths);
    }
}

} // verus!
