//! The orchestrator: the files of a load decoded, and their results
//! joined. The files are decoded here one after the other in scan order; a
//! caller that decodes them side by side hands the outcomes to
//! `join_results`, which joins them in the same way.

use vstd::prelude::*;
use crate::csv_format::{all_wf, cells_of};
use crate::reader::{decoded, read_path, DecodeError, FileSource};
use crate::row::Row;

verus! {

/// The failure that ended a load: the place of the file in the list, its
/// path, the format it was read under, and the decoder's error.
pub struct LoadError {
    pub index: usize,
    pub path: String,
    pub format: String,
    pub cause: DecodeError,
}

/// What decoding one file came to, with the file's path.
pub struct FileOutcome {
    pub path: String,
    pub rows: Result<Vec<Row>, DecodeError>,
}

/// The place of the first failure among the first `n` outcomes.
pub open spec fn first_error(
    outcomes: Seq<Result<Seq<Seq<(Seq<char>, Seq<char>)>>, DecodeError>>,
    n: nat,
) -> Option<int>
    decreases n,
{
    if n == 0 {
        None
    } else {
        match first_error(outcomes, (n - 1) as nat) {
            Some(i) => Some(i),
            None => if outcomes[n - 1].is_err() {
                Some(n - 1)
            } else {
                None
            },
        }
    }
}

/// The outcomes joined: where none is a failure, the rows of each file at
/// the file's place; else the place and the error of the first failure.
pub open spec fn joined_outcomes(
    outcomes: Seq<Result<Seq<Seq<(Seq<char>, Seq<char>)>>, DecodeError>>,
) -> Result<Seq<Seq<Seq<(Seq<char>, Seq<char>)>>>, (int, DecodeError)> {
    match first_error(outcomes, outcomes.len()) {
        Some(i) => Err((i, outcomes[i]->Err_0)),
        None => Ok(Seq::new(outcomes.len(), |i: int| outcomes[i]->Ok_0)),
    }
}

/// What each file decodes to, in the order of the list.
pub open spec fn decodes(files: Seq<FileSource>, format: Seq<char>) -> Seq<
    Result<Seq<Seq<(Seq<char>, Seq<char>)>>, DecodeError>,
> {
    Seq::new(files.len(), |i: int| decoded(files[i], format))
}

/// What a load of the files comes to.
pub open spec fn loaded(files: Seq<FileSource>, format: Seq<char>) -> Result<
    Seq<Seq<Seq<(Seq<char>, Seq<char>)>>>,
    (int, DecodeError),
> {
    joined_outcomes(decodes(files, format))
}

/// The cells of the rows of each group.
pub open spec fn group_cells(groups: Seq<Vec<Row>>) -> Seq<Seq<Seq<(Seq<char>, Seq<char>)>>> {
    Seq::new(groups.len(), |i: int| cells_of(groups[i]@))
}

/// Every row of every group is well formed.
pub open spec fn groups_wf(groups: Seq<Vec<Row>>) -> bool {
    forall|i: int| 0 <= i < groups.len() ==> all_wf((#[trigger] groups[i])@)
}

/// The plain value of one outcome.
pub open spec fn outcome_of(rows: Result<Vec<Row>, DecodeError>) -> Result<
    Seq<Seq<(Seq<char>, Seq<char>)>>,
    DecodeError,
> {
    match rows {
        Ok(list) => Ok(cells_of(list@)),
        Err(error) => Err(error),
    }
}

/// The plain values of the outcomes.
pub open spec fn outcomes_of(outcomes: Seq<FileOutcome>) -> Seq<
    Result<Seq<Seq<(Seq<char>, Seq<char>)>>, DecodeError>,
> {
    Seq::new(outcomes.len(), |i: int| outcome_of(outcomes[i].rows))
}

/// Every row of every outcome is well formed.
pub open spec fn outcomes_wf(outcomes: Seq<FileOutcome>) -> bool {
    forall|i: int|
        0 <= i < outcomes.len() ==> match (#[trigger] outcomes[i]).rows {
            Ok(list) => all_wf(list@),
            Err(_) => true,
        }
}

/// `first_error` names a failure before which there is none; it names none
/// only where none of the first `n` outcomes is a failure.
pub proof fn lemma_first_error(
    outcomes: Seq<Result<Seq<Seq<(Seq<char>, Seq<char>)>>, DecodeError>>,
    n: nat,
)
    ensures
        match first_error(outcomes, n) {
            Some(i) => 0 <= i < n && outcomes[i].is_err() && forall|j: int|
                0 <= j < i ==> (#[trigger] outcomes[j]).is_ok(),
            None => forall|j: int| 0 <= j < n ==> (#[trigger] outcomes[j]).is_ok(),
        },
    decreases n,
{
    if n > 0 {
        lemma_first_error(outcomes, (n - 1) as nat);
    }
}

/// A failure before which there is none is the first failure.
pub proof fn lemma_first_error_is(
    outcomes: Seq<Result<Seq<Seq<(Seq<char>, Seq<char>)>>, DecodeError>>,
    n: nat,
    at: int,
)
    requires
        0 <= at < n,
        outcomes[at].is_err(),
        forall|j: int| 0 <= j < at ==> (#[trigger] outcomes[j]).is_ok(),
    ensures
        first_error(outcomes, n) == Some(at),
    decreases n,
{
    lemma_first_error(outcomes, (n - 1) as nat);
    if n - 1 > at {
        lemma_first_error_is(outcomes, (n - 1) as nat, at);
    }
}

/// Decodes every file under `format`, in the order of the list. Where every
/// file decodes there is one group of rows for each file, at the file's
/// place, with the file's rows in their order. The first file that fails
/// ends the load: the error names it, and no later file is decoded.
pub fn load(files: Vec<FileSource>, format: String) -> (groups: Result<Vec<Vec<Row>>, LoadError>)
    ensures
        match groups {
            Ok(list) => groups_wf(list@) && loaded(files@, format@) == Ok::<_, (int, DecodeError)>(
                group_cells(list@),
            ),
            Err(error) => {
                &&& loaded(files@, format@) == Err::<Seq<Seq<Seq<(Seq<char>, Seq<char>)>>>, _>(
                    (error.index as int, error.cause),
                )
                &&& error.index < files@.len()
                &&& error.path@ == files@[error.index as int].path@
                &&& error.format@ == format@
            },
        },
{
    let ghost all = decodes(files@, format@);
    let mut groups: Vec<Vec<Row>> = Vec::new();
    let mut i: usize = 0;
    while i < files.len()
        invariant
            i <= files@.len(),
            all == decodes(files@, format@),
            groups@.len() == i,
            groups_wf(groups@),
            forall|j: int| 0 <= j < i ==> (#[trigger] all[j]).is_ok(),
            forall|j: int|
                0 <= j < i ==> all[j] == Ok::<_, DecodeError>(cells_of((#[trigger] groups@[j])@)),
        decreases files@.len() - i,
    {
        match read_path(&files[i], &format) {
            Ok(rows) => {
                groups.push(rows);
            },
            Err(cause) => {
                proof {
                    lemma_first_error_is(all, all.len(), i as int);
                }
                return Err(LoadError { index: i, path: files[i].path.clone(), format, cause });
            },
        }
        i += 1;
    }
    proof {
        lemma_first_error(all, all.len());
        assert(group_cells(groups@) =~= Seq::new(all.len(), |k: int| all[k]->Ok_0));
    }
    Ok(groups)
}

/// Joins the outcomes of files that were decoded side by side, given in
/// scan order: where every file decoded, the groups of rows in that order,
/// the rows themselves handed over; else the error of the first file that
/// failed, whatever came of the files after it.
pub fn join_results(outcomes: Vec<FileOutcome>, format: String) -> (groups: Result<
    Vec<Vec<Row>>,
    LoadError,
>)
    requires
        outcomes_wf(outcomes@),
    ensures
        match groups {
            Ok(list) => {
                &&& groups_wf(list@)
                &&& joined_outcomes(outcomes_of(outcomes@)) == Ok::<_, (int, DecodeError)>(
                    group_cells(list@),
                )
                &&& list@.len() == outcomes@.len()
                &&& forall|i: int|
                    0 <= i < list@.len() ==> outcomes@[i].rows == Ok::<_, DecodeError>(
                        #[trigger] list@[i],
                    )
            },
            Err(error) => {
                &&& joined_outcomes(outcomes_of(outcomes@)) == Err::<
                    Seq<Seq<Seq<(Seq<char>, Seq<char>)>>>,
                    _,
                >((error.index as int, error.cause))
                &&& error.index < outcomes@.len()
                &&& error.path@ == outcomes@[error.index as int].path@
                &&& error.format@ == format@
            },
        },
{
    let ghost given = outcomes@;
    let ghost plain = outcomes_of(outcomes@);
    let total: usize = outcomes.len();
    let mut outcomes = outcomes;
    let mut stack: Vec<Vec<Row>> = Vec::new();
    let mut failure: Option<LoadError> = None;
    while outcomes.len() > 0
        invariant
            total == given.len(),
            plain == outcomes_of(given),
            outcomes_wf(given),
            outcomes@.len() <= total,
            forall|i: int| 0 <= i < outcomes@.len() ==> outcomes@[i] == given[i],
            match failure {
                Some(error) => {
                    &&& outcomes@.len() <= error.index < total
                    &&& given[error.index as int].rows == Err::<Vec<Row>, _>(error.cause)
                    &&& error.path@ == given[error.index as int].path@
                    &&& error.format@ == format@
                    &&& forall|j: int|
                        outcomes@.len() <= j < error.index ==> (#[trigger] given[j]).rows.is_ok()
                },
                None => {
                    &&& stack@.len() == total - outcomes@.len()
                    &&& forall|j: int|
                        0 <= j < stack@.len() ==> given[total - 1 - j].rows == Ok::<
                            _,
                            DecodeError,
                        >(#[trigger] stack@[j])
                },
            },
        decreases outcomes@.len(),
    {
        let at: usize = outcomes.len() - 1;
        let outcome = outcomes.pop().unwrap();
        assert(outcome == given[at as int]);
        match outcome.rows {
            Ok(rows) => {
                if failure.is_none() {
                    stack.push(rows);
                }
            },
            Err(cause) => {
                failure = Some(
                    LoadError { index: at, path: outcome.path, format: format.clone(), cause },
                );
            },
        }
    }
    match failure {
        Some(error) => {
            proof {
                assert forall|j: int| 0 <= j < error.index implies (#[trigger] plain[j]).is_ok() by {
                    assert(given[j].rows.is_ok());
                }
                assert(plain[error.index as int].is_err());
                lemma_first_error_is(plain, plain.len(), error.index as int);
            }
            Err(error)
        },
        None => {
            let mut groups: Vec<Vec<Row>> = Vec::new();
            while stack.len() > 0
                invariant
                    total == given.len(),
                    outcomes_wf(given),
                    groups@.len() + stack@.len() == total,
                    forall|j: int|
                        0 <= j < stack@.len() ==> given[total - 1 - j].rows == Ok::<
                            _,
                            DecodeError,
                        >(#[trigger] stack@[j]),
                    forall|i: int|
                        0 <= i < groups@.len() ==> given[i].rows == Ok::<_, DecodeError>(
                            #[trigger] groups@[i],
                        ),
                decreases stack@.len(),
            {
                let group = stack.pop().unwrap();
                groups.push(group);
            }
            proof {
                assert forall|i: int| 0 <= i < groups@.len() implies all_wf(
                    (#[trigger] groups@[i])@,
                ) by {
                    assert(given[i].rows == Ok::<_, DecodeError>(groups@[i]));
                }
                assert forall|j: int| 0 <= j < plain.len() implies (#[trigger] plain[j]).is_ok() by {
                    assert(given[j].rows == Ok::<_, DecodeError>(groups@[j]));
                }
                lemma_first_error(plain, plain.len());
                assert(first_error(plain, plain.len()).is_none());
                assert(group_cells(groups@) =~= Seq::new(plain.len(), |k: int| plain[k]->Ok_0)) by {
                    assert forall|k: int| 0 <= k < plain.len() implies group_cells(groups@)[k]
                        == plain[k]->Ok_0 by {
                        assert(given[k].rows == Ok::<_, DecodeError>(groups@[k]));
                    }
                }
            }
            Ok(groups)
        },
    }
}

/// Decoding the files side by side and joining the outcomes comes to what
/// decoding them one after the other comes to: where each outcome is what
/// its file decodes to, the join is the load.
pub proof fn lemma_strategies_agree(
    files: Seq<FileSource>,
    format: Seq<char>,
    outcomes: Seq<Result<Seq<Seq<(Seq<char>, Seq<char>)>>, DecodeError>>,
)
    requires
        outcomes.len() == files.len(),
        forall|i: int| 0 <= i < files.len() ==> outcomes[i] == decoded(#[trigger] files[i], format),
    ensures
        joined_outcomes(outcomes) == loaded(files, format),
{
    assert(outcomes =~= decodes(files, format));
}

} // verus!
