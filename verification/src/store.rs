//! The credential store: an owned, mutable collection of login records plus
//! the path of its backing file. Record names are the lookup key and are
//! unique within a database. The collection is the single source of truth
//! during a run; the backing file reflects the last flush.

use vstd::prelude::*;

use crate::errors::Error;

verus! {

/// The mathematical value of one login record: its three fields as
/// character sequences.
pub ghost struct RecordModel {
    pub name: Seq<char>,
    pub username: Seq<char>,
    pub secret: Seq<char>,
}

/// One named login record: the service name (unique key), the username, and
/// the secret value.
#[derive(Debug)]
pub struct Record {
    pub name: String,
    pub username: String,
    pub secret: String,
}

impl View for Record {
    type V = RecordModel;

    open spec fn view(&self) -> RecordModel {
        RecordModel { name: self.name@, username: self.username@, secret: self.secret@ }
    }
}

/// True when no two records in `s` share a name.
pub open spec fn names_unique(s: Seq<RecordModel>) -> bool {
    forall|i: int, j: int| 0 <= i < j < s.len() ==> s[i].name != s[j].name
}

/// True when some record in `s` is named `name`.
pub open spec fn contains_name(s: Seq<RecordModel>, name: Seq<char>) -> bool {
    exists|i: int| 0 <= i < s.len() && s[i].name == name
}

/// The first record in `s` named `name`, if any. With unique names it is the
/// only one.
pub open spec fn spec_lookup(s: Seq<RecordModel>, name: Seq<char>) -> Option<RecordModel>
    decreases s.len(),
{
    if s.len() == 0 {
        None
    } else if s[0].name == name {
        Some(s[0])
    } else {
        spec_lookup(s.drop_first(), name)
    }
}

/// Skipping a prefix in which no record is named `name` does not change the
/// lookup result.
proof fn lemma_lookup_skip(s: Seq<RecordModel>, name: Seq<char>, k: int)
    requires
        0 <= k <= s.len(),
        forall|j: int| 0 <= j < k ==> s[j].name != name,
    ensures
        spec_lookup(s, name) == spec_lookup(s.skip(k), name),
    decreases k,
{
    if k > 0 {
        lemma_lookup_skip(s.drop_first(), name, k - 1);
        assert(s.drop_first().skip(k - 1) =~= s.skip(k));
    } else {
        assert(s.skip(0) =~= s);
    }
}

/// `spec_lookup` finds a record exactly when one with that name is present.
pub proof fn lemma_lookup_contains(s: Seq<RecordModel>, name: Seq<char>)
    ensures
        (spec_lookup(s, name) is Some) <==> contains_name(s, name),
        (spec_lookup(s, name) is Some) ==> spec_lookup(s, name)->0.name == name,
    decreases s.len(),
{
    if s.len() > 0 && s[0].name != name {
        lemma_lookup_contains(s.drop_first(), name);
        assert(contains_name(s.drop_first(), name) ==> contains_name(s, name)) by {
            if contains_name(s.drop_first(), name) {
                let i = choose|i: int|
                    0 <= i < s.drop_first().len() && s.drop_first()[i].name == name;
                assert(s[i + 1].name == name);
            }
        }
        assert(contains_name(s, name) ==> contains_name(s.drop_first(), name)) by {
            if contains_name(s, name) {
                let i = choose|i: int| 0 <= i < s.len() && s[i].name == name;
                assert(s.drop_first()[i - 1].name == name);
            }
        }
    }
}

/// Looking up a freshly appended record finds exactly that record, provided
/// its name was not already present.
///
/// Law: for every collection with unique names and every record whose name is
/// not yet taken, an insertion followed by a lookup of that name returns the
/// inserted record's field values.
pub proof fn lemma_add_then_query(s: Seq<RecordModel>, r: RecordModel)
    requires
        !contains_name(s, r.name),
    ensures
        spec_lookup(s.push(r), r.name) == Some(r),
{
    let t = s.push(r);
    assert(forall|j: int| 0 <= j < s.len() ==> t[j].name != r.name);
    lemma_lookup_skip(t, r.name, s.len() as int);
    assert(t.skip(s.len() as int) =~= seq![r]);
    assert(spec_lookup(seq![r], r.name) == Some(r));
}

/// The in-memory database: a collection of login records with unique names,
/// plus the path of the file that backs it.
#[derive(Debug)]
pub struct Database {
    path: String,
    records: Vec<Record>,
}

impl View for Database {
    type V = Seq<RecordModel>;

    closed spec fn view(&self) -> Seq<RecordModel> {
        self.records@.map_values(|r: Record| r@)
    }
}

impl Database {
    /// The path of the backing file, as a character sequence.
    pub closed spec fn spec_path(&self) -> Seq<char> {
        self.path@
    }

    /// The path of the file that backs this database. The application
    /// flushes the encoded collection to this path.
    pub fn path(&self) -> (p: &String)
        ensures
            p@ == self.spec_path(),
    {
        &self.path
    }

    /// Well-formed: record names are unique, so a name identifies at most one
    /// record.
    pub open spec fn wf(&self) -> bool {
        names_unique(self@)
    }

    /// A fresh, empty database that will be backed by the file at `path`.
    /// The caller persists it immediately; creation fails there if a file
    /// already exists at `path`.
    pub fn init(path: String) -> (db: Database)
        ensures
            db.wf(),
            db@ == Seq::<RecordModel>::empty(),
            db.spec_path() == path@,
    {
        let db = Database { path, records: Vec::new() };
        proof {
            assert(db@ =~= Seq::<RecordModel>::empty());
        }
        db
    }

    /// How many records are held.
    pub fn len(&self) -> (n: usize)
        ensures
            n == self@.len(),
    {
        self.records.len()
    }

    /// The record at position `i`, for enumeration when no name filter is
    /// given.
    pub fn record_at(&self, i: usize) -> (r: &Record)
        requires
            i < self@.len(),
        ensures
            r@ == self@[i as int],
    {
        &self.records[i]
    }

    /// The index of the record named `name`, if one is present.
    fn find_index(&self, name: &String) -> (r: Option<usize>)
        ensures
            match r {
                Some(i) => {
                    &&& i < self@.len()
                    &&& self@[i as int].name == name@
                    &&& forall|j: int| 0 <= j < i ==> self@[j].name != name@
                },
                None => !contains_name(self@, name@),
            },
    {
        let n = self.records.len();
        for i in 0..n
            invariant
                n == self@.len(),
                forall|j: int| 0 <= j < i ==> self@[j].name != name@,
        {
            if self.records[i].name == *name {
                return Some(i);
            }
        }
        proof {
            if contains_name(self@, name@) {
                let i = choose|i: int| 0 <= i < self@.len() && self@[i].name == name@;
                assert(self@[i].name == name@);
            }
        }
        None
    }

    /// Looks up the single record named `name`. Returns `None`, not an
    /// error, when no record matches: the interactive caller is
    /// display-oriented and treats absence as a message. Never mutates.
    pub fn query(&self, name: &String) -> (r: Option<&Record>)
        ensures
            match r {
                Some(rec) => spec_lookup(self@, name@) == Some(rec@),
                None => spec_lookup(self@, name@) is None,
            },
    {
        proof {
            lemma_lookup_contains(self@, name@);
        }
        match self.find_index(name) {
            Some(i) => {
                proof {
                    lemma_lookup_skip(self@, name@, i as int);
                    assert(self@.skip(i as int)[0] == self@[i as int]);
                }
                Some(&self.records[i])
            },
            None => None,
        }
    }

    /// Inserts a new record. Fails with `DuplicateName`, leaving the
    /// collection unchanged, exactly when a record with the same name is
    /// already present.
    pub fn add(&mut self, record: Record) -> (r: Result<(), Error>)
        requires
            old(self).wf(),
        ensures
            final(self).wf(),
            final(self).spec_path() == old(self).spec_path(),
            match r {
                Ok(()) => {
                    &&& !contains_name(old(self)@, record@.name)
                    &&& final(self)@ == old(self)@.push(record@)
                },
                Err(e) => {
                    &&& e == Error::DuplicateName
                    &&& contains_name(old(self)@, record@.name)
                    &&& final(self)@ == old(self)@
                },
            },
    {
        match self.find_index(&record.name) {
            Some(_) => Err(Error::DuplicateName),
            None => {
                let ghost before = self@;
                let ghost model = record@;
                self.records.push(record);
                proof {
                    assert(self@ =~= before.push(model));
                }
                Ok(())
            },
        }
    }

    /// Removes the record named `name`. Fails with `RecordNotFound`, leaving
    /// the collection unchanged, exactly when no record matches.
    pub fn remove(&mut self, name: &String) -> (r: Result<Record, Error>)
        requires
            old(self).wf(),
        ensures
            final(self).wf(),
            final(self).spec_path() == old(self).spec_path(),
            match r {
                Ok(rec) => {
                    &&& rec@.name == name@
                    &&& exists|i: int|
                        {
                            &&& 0 <= i < old(self)@.len()
                            &&& old(self)@[i] == rec@
                            &&& final(self)@ == old(self)@.remove(i)
                        }
                },
                Err(e) => {
                    &&& e == Error::RecordNotFound
                    &&& !contains_name(old(self)@, name@)
                    &&& final(self)@ == old(self)@
                },
            },
    {
        match self.find_index(name) {
            None => Err(Error::RecordNotFound),
            Some(i) => {
                let ghost before = self@;
                let rec = self.records.remove(i);
                proof {
                    assert(self@ =~= before.remove(i as int));
                    assert forall|a: int, b: int|
                        0 <= a < b < self@.len() implies self@[a].name != self@[b].name by {
                        let a0 = if a < i { a } else { a + 1 };
                        let b0 = if b < i { b } else { b + 1 };
                        assert(before[a0].name != before[b0].name);
                    }
                }
                Ok(rec)
            },
        }
    }
}

} // verus!
