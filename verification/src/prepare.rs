//! The table of prepared statements: handle to planned statement.

use crate::cluster::Field;
use crate::keyed::{
    distinct_keys, lemma_absent, lemma_pair_at, lemma_pairs_empty, lemma_pairs_push,
    lemma_pairs_update, pairs_map,
};
use vstd::prelude::*;

verus! {

/// A statement that was parsed and planned ahead of its execution.
#[derive(Debug)]
pub struct PreparedStatement {
    /// The handle that the client names the statement by.
    pub handle: String,
    /// The plan, in the form the execution backend takes it.
    pub plan: Vec<u8>,
    /// The columns of the statement's parameters, where it has any.
    pub parameter_schema: Option<Vec<Field>>,
    /// The columns of the statement's result.
    pub result_schema: Vec<Field>,
}

/// The prepared statements of a service, by handle.
#[derive(Debug)]
pub struct PreparedStatements {
    statements: Vec<PreparedStatement>,
}

closed spec fn statement_pairs(s: Seq<PreparedStatement>) -> Seq<(Seq<char>, PreparedStatement)> {
    Seq::new(s.len(), |i: int| (s[i].handle@, s[i]))
}

impl View for PreparedStatements {
    type V = Map<Seq<char>, PreparedStatement>;

    closed spec fn view(&self) -> Map<Seq<char>, PreparedStatement> {
        pairs_map(statement_pairs(self.statements@))
    }
}

impl PreparedStatements {
    /// The table's invariant: no handle is listed twice.
    pub closed spec fn wf(&self) -> bool {
        distinct_keys(statement_pairs(self.statements@))
    }

    /// A table without statements.
    pub fn new() -> (t: PreparedStatements)
        ensures
            t.wf(),
            t@ == Map::<Seq<char>, PreparedStatement>::empty(),
    {
        let t = PreparedStatements { statements: Vec::new() };
        proof {
            lemma_pairs_empty(statement_pairs(t.statements@));
        }
        t
    }

    fn find(&self, handle: &String) -> (r: Option<usize>)
        requires
            self.wf(),
        ensures
            match r {
                Some(i) => {
                    &&& i < self.statements.len()
                    &&& self.statements[i as int].handle@ == handle@
                    &&& self@.dom().contains(handle@)
                    &&& self@[handle@] == self.statements[i as int]
                },
                None => !self@.dom().contains(handle@),
            },
    {
        let mut i: usize = 0;
        while i < self.statements.len()
            invariant
                self.wf(),
                i <= self.statements.len(),
                forall|j: int| 0 <= j < i ==> self.statements[j].handle@ != handle@,
            decreases self.statements.len() - i,
        {
            if self.statements[i].handle == *handle {
                proof {
                    lemma_pair_at(statement_pairs(self.statements@), i as int);
                }
                return Some(i);
            }
            i = i + 1;
        }
        proof {
            lemma_absent(statement_pairs(self.statements@), handle@);
        }
        None
    }

    /// Stores `statement` under its handle, in place of a statement that
    /// the handle named before.
    pub fn insert(&mut self, statement: PreparedStatement)
        requires
            old(self).wf(),
        ensures
            final(self).wf(),
            final(self)@ == old(self)@.insert(statement.handle@, statement),
    {
        match self.find(&statement.handle) {
            Some(i) => {
                proof {
                    lemma_pairs_update(statement_pairs(self.statements@), i as int, statement);
                    assert(statement_pairs(self.statements@.update(i as int, statement))
                        =~= statement_pairs(self.statements@).update(
                        i as int,
                        (statement.handle@, statement),
                    ));
                }
                self.statements.set(i, statement);
            },
            None => {
                proof {
                    lemma_pairs_push(
                        statement_pairs(self.statements@),
                        statement.handle@,
                        statement,
                    );
                    assert(statement_pairs(self.statements@.push(statement)) =~= statement_pairs(
                        self.statements@,
                    ).push((statement.handle@, statement)));
                }
                self.statements.push(statement);
            },
        }
    }

    /// The statement that `handle` names, if there is one.
    pub fn get(&self, handle: &str) -> (r: Option<&PreparedStatement>)
        requires
            self.wf(),
        ensures
            match r {
                Some(statement) => self@.dom().contains(handle@) && *statement == self@[handle@],
                None => !self@.dom().contains(handle@),
            },
    {
        let handle = handle.to_owned();
        match self.find(&handle) {
            Some(i) => Some(&self.statements[i]),
            None => None,
        }
    }
}

} // verus!
