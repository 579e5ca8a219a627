//! Loading a todo list from the rows of the store.
//!
//! The store itself (a SQLite database) is reached by the application; the list
//! takes the rows that a query returned.

use std::collections::BTreeMap;
use vstd::prelude::*;
use crate::models::{Todo, TodoList};

verus! {

/// The map that a sequence of rows gives when each is put under its own
/// identifier in turn: a later row replaces an earlier one with the same identifier.
pub open spec fn rows_map(rows: Seq<Todo>) -> Map<u128, Todo>
    decreases rows.len(),
{
    if rows.len() == 0 {
        Map::empty()
    } else {
        rows_map(rows.drop_last()).insert(rows.last().id, rows.last())
    }
}

impl TodoList {
    /// Replace the contents of the list by the given rows, each under its own
    /// identifier; of rows with the same identifier the later one is kept.
    pub fn load_from_db(&mut self, rows: Vec<Todo>)
        ensures
            final(self).todos@ == rows_map(rows@),
            final(self).well_keyed(),
            forall|k: u128| #[trigger] final(self).todos@.contains_key(k) <==>
                exists|i: int| 0 <= i < rows.len() && rows@[i].id == k,
            forall|k: u128| #[trigger] final(self).todos@.contains_key(k) ==>
                exists|i: int| #![trigger rows@[i]] 0 <= i < rows.len() && rows@[i] == final(self).todos@[k]
                    && (forall|j: int| i < j < rows.len() ==> rows@[j].id != k),
    {
        let mut todos: BTreeMap<u128, Todo> = BTreeMap::new();
        let mut i: usize = 0;
        while i < rows.len()
            invariant
                i <= rows.len(),
                todos@ == rows_map(rows@.take(i as int)),
            decreases rows.len() - i,
        {
            let t = rows[i].clone();
            let id = t.id;
            todos.insert(id, t);
            assert(rows@.take(i + 1).drop_last() =~= rows@.take(i as int));
            i = i + 1;
        }
        assert(rows@.take(rows.len() as int) =~= rows@);
        self.todos = todos;
        proof {
            lemma_loaded_list_is_well_keyed(rows@);
            lemma_loaded_todo_is_last_row(rows@);
        }
    }
}

/// Loading rows gives a list that keeps every todo under its own identifier and
/// holds exactly the identifiers of the rows.
pub proof fn lemma_loaded_list_is_well_keyed(rows: Seq<Todo>)
    ensures
        forall|k: u128| #[trigger] rows_map(rows).contains_key(k) ==> rows_map(rows)[k].id == k,
        forall|k: u128| #[trigger] rows_map(rows).contains_key(k) <==> exists|i: int| 0 <= i < rows.len() && rows[i].id == k,
    decreases rows.len(),
{
    if rows.len() > 0 {
        let init = rows.drop_last();
        lemma_loaded_list_is_well_keyed(init);
        assert forall|k: u128| #[trigger] rows_map(rows).contains_key(k) <==> exists|i: int| 0 <= i < rows.len() && rows[i].id == k by {
            if rows_map(rows).contains_key(k) && k != rows.last().id {
                let i = choose|i: int| 0 <= i < init.len() && init[i].id == k;
                assert(rows[i] == init[i]);
            }
            if exists|i: int| 0 <= i < rows.len() && rows[i].id == k {
                let i = choose|i: int| 0 <= i < rows.len() && rows[i].id == k;
                if i < rows.len() - 1 {
                    assert(init[i] == rows[i]);
                }
            }
        }
    }
}

/// After loading, the todo kept under each identifier is, field for field, the
/// last row with that identifier.
pub proof fn lemma_loaded_todo_is_last_row(rows: Seq<Todo>)
    ensures
        forall|k: u128| #[trigger] rows_map(rows).contains_key(k) ==>
            exists|i: int| #![trigger rows[i]] 0 <= i < rows.len() && rows[i] == rows_map(rows)[k]
                && (forall|j: int| i < j < rows.len() ==> rows[j].id != k),
    decreases rows.len(),
{
    if rows.len() > 0 {
        let init = rows.drop_last();
        lemma_loaded_todo_is_last_row(init);
        assert forall|k: u128| #[trigger] rows_map(rows).contains_key(k) implies
            exists|i: int| #![trigger rows[i]] 0 <= i < rows.len() && rows[i] == rows_map(rows)[k]
                && (forall|j: int| i < j < rows.len() ==> rows[j].id != k) by {
            if k == rows.last().id {
                let i = rows.len() - 1;
                assert(rows[i] == rows_map(rows)[k]);
            } else {
                assert(rows_map(init).contains_key(k));
                let i = choose|i: int| #![trigger init[i]] 0 <= i < init.len() && init[i] == rows_map(init)[k]
                    && (forall|j: int| i < j < init.len() ==> init[j].id != k);
                assert(rows[i] == init[i]);
                assert forall|j: int| i < j < rows.len() implies rows[j].id != k by {
                    if j < init.len() {
                        assert(rows[j] == init[j]);
                    }
                }
            }
        }
    }
}

} // verus!
