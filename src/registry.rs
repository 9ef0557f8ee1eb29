use vstd::prelude::*;

use crate::model::Entry;

verus! {

/// A redirect record: who made it, its path, its target and when.
#[derive(Debug)]
pub struct StoredRedirect {
    pub owner: String,
    pub path: String,
    pub url: String,
    pub created: String,
}

/// No two records share a path.
pub open spec fn paths_unique(rows: Seq<StoredRedirect>) -> bool {
    forall|i: int, j: int| 0 <= i < j < rows.len() ==> rows[i].path@ != rows[j].path@
}

pub open spec fn has_path(rows: Seq<StoredRedirect>, path: Seq<char>) -> bool {
    exists|i: int| 0 <= i < rows.len() && rows[i].path@ == path
}

/// The target stored under `path`.
pub open spec fn url_at(rows: Seq<StoredRedirect>, path: Seq<char>) -> Option<Seq<char>> {
    if has_path(rows, path) {
        Some(rows[choose|i: int| 0 <= i < rows.len() && rows[i].path@ == path].url@)
    } else {
        None
    }
}

/// A conditional insert: the records after it and the number of rows it wrote.
pub open spec fn conditional_insert(rows: Seq<StoredRedirect>, row: StoredRedirect) -> (
    Seq<StoredRedirect>,
    u64,
) {
    if has_path(rows, row.path@) {
        (rows, 0)
    } else {
        (rows.push(row), 1)
    }
}

/// The records of `owner`, in the order stored.
pub open spec fn owned_by(rows: Seq<StoredRedirect>, owner: Seq<char>) -> Seq<StoredRedirect>
    decreases rows.len(),
{
    if rows.len() == 0 {
        Seq::empty()
    } else {
        let rest = owned_by(rows.drop_last(), owner);
        if rows.last().owner@ == owner {
            rest.push(rows.last())
        } else {
            rest
        }
    }
}

/// An entry as listed shows a record.
pub open spec fn lists(e: Entry, row: StoredRedirect) -> bool {
    &&& e.path@ == row.path@
    &&& e.url@ == row.url@
    &&& e.created@ == row.created@
}

/// An in-memory redirect registry, keyed by path.
pub struct Registry {
    rows: Vec<StoredRedirect>,
}

impl Registry {
    pub closed spec fn rows(&self) -> Seq<StoredRedirect> {
        self.rows@
    }

    pub open spec fn wf(&self) -> bool {
        paths_unique(self.rows())
    }

    pub fn new() -> (r: Registry)
        ensures
            r.wf(),
            r.rows() == Seq::<StoredRedirect>::empty(),
    {
        Registry { rows: Vec::new() }
    }

    /// The index of the record stored under `path`, if any.
    fn position(&self, path: &String) -> (r: Option<usize>)
        ensures
            match r {
                Some(i) => i < self.rows().len() && self.rows()[i as int].path@ == path@,
                None => !has_path(self.rows(), path@),
            },
    {
        let n = self.rows.len();
        let mut i: usize = 0;
        while i < n
            invariant
                n == self.rows@.len(),
                i <= n,
                forall|k: int| 0 <= k < i ==> self.rows@[k].path@ != path@,
            decreases n - i,
        {
            if self.rows[i].path == *path {
                return Some(i);
            }
            i = i + 1;
        }
        None
    }

    /// Inserts `row` unless a record already holds its path, in one step;
    /// returns the number of rows written.
    pub fn insert_if_absent(&mut self, row: StoredRedirect) -> (n: u64)
        requires
            old(self).wf(),
        ensures
            final(self).wf(),
            (final(self).rows(), n) == conditional_insert(old(self).rows(), row),
    {
        match self.position(&row.path) {
            Some(_) => 0,
            None => {
                self.rows.push(row);
                1
            },
        }
    }

    /// The target stored under `path`.
    pub fn find_url(&self, path: &String) -> (r: Option<String>)
        requires
            self.wf(),
        ensures
            match url_at(self.rows(), path@) {
                None => r is None,
                Some(u) => r matches Some(s) && s@ == u,
            },
    {
        match self.position(path) {
            None => None,
            Some(i) => {
                proof {
                    let j = choose|j: int|
                        0 <= j < self.rows().len() && self.rows()[j].path@ == path@;
                    assert(j == i);
                }
                Some(self.rows[i].url.clone())
            },
        }
    }

    /// The entries of `owner`, in the order stored.
    pub fn entries_of(&self, owner: &String) -> (r: Vec<Entry>)
        ensures
            r@.len() == owned_by(self.rows(), owner@).len(),
            forall|k: int|
                0 <= k < r@.len() ==> lists(#[trigger] r@[k], owned_by(self.rows(), owner@)[k]),
    {
        let n = self.rows.len();
        let mut out: Vec<Entry> = Vec::new();
        let mut i: usize = 0;
        while i < n
            invariant
                n == self.rows@.len(),
                i <= n,
                out@.len() == owned_by(self.rows@.subrange(0, i as int), owner@).len(),
                forall|k: int|
                    0 <= k < out@.len() ==> lists(
                        #[trigger] out@[k],
                        owned_by(self.rows@.subrange(0, i as int), owner@)[k],
                    ),
            decreases n - i,
        {
            assert(self.rows@.subrange(0, i as int + 1).drop_last() =~= self.rows@.subrange(
                0,
                i as int,
            ));
            let row = &self.rows[i];
            if row.owner == *owner {
                out.push(
                    Entry {
                        path: row.path.clone(),
                        url: row.url.clone(),
                        created: row.created.clone(),
                    },
                );
            }
            i = i + 1;
        }
        assert(self.rows@.subrange(0, n as int) =~= self.rows@);
        out
    }
}

} // verus!
