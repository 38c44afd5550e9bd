//! The tables that a query reads.

use vstd::prelude::*;
use crate::row::names_of;
use crate::text::{split, split_by};

verus! {

/// The table names found in the first `n` clauses: the first clause is what
/// stands before the first `from` and names none; of every later clause the
/// second of its words, where it has two.
pub open spec fn tables_upto(clauses: Seq<Seq<char>>, n: nat) -> Seq<Seq<char>>
    decreases n,
{
    if n <= 1 {
        Seq::empty()
    } else {
        let before = tables_upto(clauses, (n - 1) as nat);
        let words = split_by(clauses[n - 1], " "@);
        if words.len() >= 2 {
            before.push(words[1])
        } else {
            before
        }
    }
}

/// The tables that a query names: after each `from`, the word that follows
/// the next space.
pub open spec fn tables_of(query: Seq<char>) -> Seq<Seq<char>> {
    let clauses = split_by(query, "from"@);
    tables_upto(clauses, clauses.len())
}

/// The names of the tables that `query` reads, in the order in which the
/// query names them.
pub fn get_tables_from_query(query: &String) -> (tables: Vec<String>)
    ensures
        names_of(tables@) == tables_of(query@),
{
    proof {
        reveal_strlit("from");
        reveal_strlit(" ");
    }
    let clauses = split(query.as_str(), "from");
    let mut tables: Vec<String> = Vec::new();
    let mut i: usize = 0;
    assert(names_of(tables@) =~= tables_upto(names_of(clauses@), 0));
    while i < clauses.len()
        invariant
            i <= clauses@.len(),
            " "@.len() > 0,
            names_of(tables@) == tables_upto(names_of(clauses@), i as nat),
        decreases clauses@.len() - i,
    {
        if i >= 1 {
            let words = split(clauses[i].as_str(), " ");
            assert(names_of(words@) == split_by(names_of(clauses@)[i as int], " "@));
            if words.len() >= 2 {
                let ghost before = names_of(tables@);
                tables.push(words[1].clone());
                assert(names_of(tables@) =~= before.push(names_of(words@)[1]));
            }
        }
        i += 1;
    }
    tables
}

} // verus!
