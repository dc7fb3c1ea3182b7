//! A batch of columns to create: at most one type per name, kept in the order of the
//! names.

use crate::model::ColumnType;
use crate::names::{lemma_name_lt_transitive, lemma_name_trichotomy, name_before, name_lt};
use crate::seqs::{find, lemma_position_is, lemma_position_none, views};
use vstd::prelude::*;

verus! {

/// One column of a batch: its name and the type asked for.
#[derive(Debug, PartialEq, Eq)]
pub struct ColumnRequest {
    pub name: String,
    pub column_type: ColumnType,
}

pub struct ColumnRequestView {
    pub name: Seq<char>,
    pub column_type: ColumnType,
}

impl View for ColumnRequest {
    type V = ColumnRequestView;

    open spec fn view(&self) -> ColumnRequestView {
        ColumnRequestView { name: self.name@, column_type: self.column_type }
    }
}

/// One column of a batch as it is handed to the store: its name and the code of its type.
#[derive(Debug, PartialEq, Eq)]
pub struct NameType {
    pub name: String,
    pub column_type: i8,
}

pub struct NameTypeView {
    pub name: Seq<char>,
    pub column_type: i8,
}

impl View for NameType {
    type V = NameTypeView;

    open spec fn view(&self) -> NameTypeView {
        NameTypeView { name: self.name@, column_type: self.column_type }
    }
}

/// The request of the given name.
pub open spec fn request_named(name: Seq<char>) -> spec_fn(ColumnRequestView) -> bool {
    |r: ColumnRequestView| r.name == name
}

/// Whether the names of the requests ascend strictly.
pub open spec fn requests_ascend(s: Seq<ColumnRequestView>) -> bool {
    forall|i: int, j: int| 0 <= i < j < s.len() ==> name_lt(s[i].name, s[j].name)
}

/// The type that the requests ask for the given name, if they name it.
pub open spec fn requested_type(s: Seq<ColumnRequestView>, name: Seq<char>) -> Option<ColumnType> {
    match find(s, request_named(name)) {
        Some(r) => Some(r.column_type),
        None => None,
    }
}

/// In requests whose names ascend, each request is the one that is found under its name.
pub proof fn lemma_requested_at(s: Seq<ColumnRequestView>, i: int)
    requires
        requests_ascend(s),
        0 <= i < s.len(),
    ensures
        find(s, request_named(s[i].name)) == Some(s[i]),
        requested_type(s, s[i].name) == Some(s[i].column_type),
{
    assert forall|j: int| 0 <= j < i implies !request_named(s[i].name)(#[trigger] s[j]) by {
        lemma_name_trichotomy(s[j].name, s[i].name);
    }
    lemma_position_is(s, request_named(s[i].name), i);
}

/// The columns that a caller asks for in one call: a map from names to types, walked in
/// the order of the names.
#[derive(Debug, PartialEq, Eq)]
pub struct ColumnBatch {
    entries: Vec<ColumnRequest>,
}

impl View for ColumnBatch {
    type V = Seq<ColumnRequestView>;

    closed spec fn view(&self) -> Seq<ColumnRequestView> {
        views(self.entries@)
    }
}

impl ColumnBatch {
    /// The invariant of a batch: its names ascend strictly, so no name occurs twice.
    pub open spec fn wf(&self) -> bool {
        requests_ascend(self@)
    }

    /// The type that the batch asks for the given name, if it names it.
    pub open spec fn type_of(&self, name: Seq<char>) -> Option<ColumnType> {
        requested_type(self@, name)
    }

    /// The batch that asks for nothing.
    pub fn new() -> (batch: Self)
        ensures
            batch.wf(),
            batch@.len() == 0,
    {
        ColumnBatch { entries: Vec::new() }
    }

    /// How many columns the batch asks for.
    pub fn len(&self) -> (n: usize)
        ensures
            n == self@.len(),
    {
        self.entries.len()
    }

    /// The requests of the batch, in the order of their names.
    pub fn entries(&self) -> (entries: &Vec<ColumnRequest>)
        ensures
            views(entries@) == self@,
    {
        &self.entries
    }

    /// Where the request for `name` stands or would stand: behind every request whose
    /// name stands before `name`.
    fn slot(&self, name: &str) -> (at: usize)
        requires
            self.wf(),
        ensures
            at <= self@.len(),
            forall|j: int| 0 <= j < at ==> name_lt(self@[j].name, name@),
            forall|j: int| at <= j < self@.len() ==> !name_lt(self@[j].name, name@),
            forall|j: int| at < j < self@.len() ==> name_lt(name@, self@[j].name),
            at < self@.len() && self@[at as int].name != name@ ==> name_lt(
                name@,
                self@[at as int].name,
            ),
    {
        let mut at: usize = 0;
        while at < self.entries.len() && name_before(self.entries[at].name.as_str(), name)
            invariant
                at <= self.entries.len(),
                forall|j: int| 0 <= j < at ==> name_lt(self@[j].name, name@),
            decreases self.entries.len() - at,
        {
            at += 1;
        }
        proof {
            if at < self@.len() {
                lemma_name_trichotomy(self@[at as int].name, name@);
                assert forall|j: int| at < j < self@.len() implies name_lt(
                    name@,
                    self@[j].name,
                ) && !name_lt(self@[j].name, name@) by {
                    assert(name_lt(self@[at as int].name, self@[j].name));
                    lemma_name_trichotomy(self@[j].name, name@);
                    if name_lt(self@[j].name, name@) {
                        lemma_name_lt_transitive(self@[at as int].name, self@[j].name, name@);
                    }
                    if self@[j].name == name@ {
                    }
                }
            }
        }
        at
    }

    /// The type that the batch asks for the given name.
    pub fn get(&self, name: &str) -> (t: Option<ColumnType>)
        requires
            self.wf(),
        ensures
            t == self.type_of(name@),
    {
        let at = self.slot(name);
        let wanted = name.to_string();
        if at < self.entries.len() && self.entries[at].name == wanted {
            proof {
                lemma_requested_at(self@, at as int);
            }
            Some(self.entries[at].column_type)
        } else {
            proof {
                assert forall|j: int| 0 <= j < self@.len() implies !request_named(name@)(
                    #[trigger] self@[j],
                ) by {
                    lemma_name_trichotomy(self@[j].name, name@);
                }
                lemma_position_none(self@, request_named(name@));
            }
            None
        }
    }

    /// Asks for a column of the given name and type. Where the batch names the column
    /// already, the new type takes the place of the old one, which is returned.
    pub fn insert(&mut self, name: &str, column_type: ColumnType) -> (previous: Option<ColumnType>)
        requires
            old(self).wf(),
        ensures
            final(self).wf(),
            previous == old(self).type_of(name@),
            forall|n: Seq<char>|
                #[trigger] final(self).type_of(n) == if n == name@ {
                    Some(column_type)
                } else {
                    old(self).type_of(n)
                },
            final(self)@.len() == old(self)@.len() + if previous is None {
                1int
            } else {
                0int
            },
    {
        let at = self.slot(name);
        let wanted = name.to_string();
        let ghost before = self@;
        if at < self.entries.len() && self.entries[at].name == wanted {
            let previous = self.entries[at].column_type;
            let entry = ColumnRequest { name: wanted, column_type };
            self.entries[at] = entry;
            proof {
                let after = self@;
                assert(after =~= before.update(at as int, entry@));
                lemma_requested_at(before, at as int);
                assert forall|n: Seq<char>| #[trigger]
                    requested_type(after, n) == if n == name@ {
                        Some(column_type)
                    } else {
                        requested_type(before, n)
                    } by {
                    Self::lemma_same_names(before, after, n, at as int);
                }
            }
            Some(previous)
        } else {
            let entry = ColumnRequest { name: wanted, column_type };
            self.entries.insert(at, entry);
            proof {
                let after = self@;
                assert(after =~= before.insert(at as int, entry@));
                assert forall|j: int| 0 <= j < before.len() implies !request_named(name@)(
                    #[trigger] before[j],
                ) by {
                    lemma_name_trichotomy(before[j].name, name@);
                }
                lemma_position_none(before, request_named(name@));
                assert(requests_ascend(after)) by {
                    assert forall|i: int, j: int| 0 <= i < j < after.len() implies name_lt(
                        after[i].name,
                        after[j].name,
                    ) by {
                        let pi = if i < at { i } else { i - 1 };
                        let pj = if j < at { j } else { j - 1 };
                        if i != at && j != at {
                            assert(after[i] == before[pi]);
                            assert(after[j] == before[pj]);
                        } else if i == at {
                            assert(after[j] == before[pj]);
                        } else {
                            assert(after[i] == before[pi]);
                        }
                    }
                }
                assert forall|n: Seq<char>| #[trigger]
                    requested_type(after, n) == if n == name@ {
                        Some(column_type)
                    } else {
                        requested_type(before, n)
                    } by {
                    Self::lemma_one_more(before, after, n, at as int);
                }
            }
            None
        }
    }

    /// Requests that differ from others in the type of one request only ask for the same
    /// types under every other name.
    proof fn lemma_same_names(
        before: Seq<ColumnRequestView>,
        after: Seq<ColumnRequestView>,
        n: Seq<char>,
        at: int,
    )
        requires
            requests_ascend(before),
            0 <= at < before.len(),
            after.len() == before.len(),
            after[at].name == before[at].name,
            forall|j: int| 0 <= j < before.len() && j != at ==> after[j] == before[j],
        ensures
            requests_ascend(after),
            requested_type(after, n) == if n == before[at].name {
                Some(after[at].column_type)
            } else {
                requested_type(before, n)
            },
    {
        assert(requests_ascend(after)) by {
            assert forall|i: int, j: int| 0 <= i < j < after.len() implies name_lt(
                after[i].name,
                after[j].name,
            ) by {
                assert(after[i].name == before[i].name);
                assert(after[j].name == before[j].name);
            }
        }
        if exists|i: int| 0 <= i < before.len() && before[i].name == n {
            let i = choose|i: int| 0 <= i < before.len() && before[i].name == n;
            lemma_requested_at(before, i);
            lemma_requested_at(after, i);
            if i != at {
                lemma_name_trichotomy(before[i].name, before[at].name);
            }
        } else {
            assert forall|j: int| 0 <= j < before.len() implies !request_named(n)(
                #[trigger] before[j],
            ) by {}
            assert forall|j: int| 0 <= j < after.len() implies !request_named(n)(
                #[trigger] after[j],
            ) by {
                assert(after[j].name == before[j].name);
            }
            lemma_position_none(before, request_named(n));
            lemma_position_none(after, request_named(n));
        }
    }

    /// Requests with one request more ask for the same types under every other name.
    proof fn lemma_one_more(
        before: Seq<ColumnRequestView>,
        after: Seq<ColumnRequestView>,
        n: Seq<char>,
        at: int,
    )
        requires
            requests_ascend(before),
            requests_ascend(after),
            0 <= at <= before.len(),
            after == before.insert(at, after[at]),
            requested_type(before, after[at].name) is None,
        ensures
            requested_type(after, n) == if n == after[at].name {
                Some(after[at].column_type)
            } else {
                requested_type(before, n)
            },
    {
        if n == after[at].name {
            lemma_requested_at(after, at);
        } else if exists|i: int| 0 <= i < before.len() && before[i].name == n {
            let i = choose|i: int| 0 <= i < before.len() && before[i].name == n;
            let k = if i < at { i } else { i + 1 };
            assert(after[k] == before[i]);
            lemma_requested_at(before, i);
            lemma_requested_at(after, k);
        } else {
            assert forall|j: int| 0 <= j < before.len() implies !request_named(n)(
                #[trigger] before[j],
            ) by {}
            assert forall|j: int| 0 <= j < after.len() implies !request_named(n)(
                #[trigger] after[j],
            ) by {
                if j < at {
                    assert(after[j] == before[j]);
                } else if j > at {
                    assert(after[j] == before[j - 1]);
                }
            }
            lemma_position_none(before, request_named(n));
            lemma_position_none(after, request_named(n));
        }
    }

    /// The batch as it is handed to the store: the requests in the order of their names,
    /// each type by its code.
    pub fn name_types(&self) -> (rows: Vec<NameType>)
        ensures
            views(rows@) == self@.map_values(
                |r: ColumnRequestView|
                    NameTypeView { name: r.name, column_type: r.column_type.spec_code() },
            ),
    {
        let mut rows: Vec<NameType> = Vec::new();
        let mut i: usize = 0;
        while i < self.entries.len()
            invariant
                i <= self.entries.len(),
                rows@.len() == i,
                forall|j: int|
                    0 <= j < i ==> (#[trigger] rows@[j])@ == (NameTypeView {
                        name: self@[j].name,
                        column_type: self@[j].column_type.spec_code(),
                    }),
            decreases self.entries.len() - i,
        {
            rows.push(
                NameType {
                    name: self.entries[i].name.clone(),
                    column_type: self.entries[i].column_type.code(),
                },
            );
            i += 1;
        }
        proof {
            assert(views(rows@) =~= self@.map_values(
                |r: ColumnRequestView|
                    NameTypeView { name: r.name, column_type: r.column_type.spec_code() },
            ));
        }
        rows
    }
}

} // verus!
