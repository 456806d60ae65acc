//! Decoder for the short, NUL-separated status report of `git`
//! (`git status --porcelain=1 -z`).
//!
//! The report is a run of records, each ended by a NUL byte. A record is
//! two state codes, a space, and a path:
//!
//! ```text
//! XY path
//! ```
//!
//! `X` is the state of the file in the index, `Y` its state in the working
//! tree. The decoder keeps four kinds of change only; it does not tell
//! renamed, copied or conflicted files apart. A record that it cannot read
//! is passed over: decoding never fails.

use vstd::prelude::*;
use vstd::slice::{slice_subrange, slice_to_vec};
use crate::path::{is_repo_path, lemma_repo_path_holds_no_forbidden_byte, RepoPathBuf};
use crate::split::{lemma_split_joined, lemma_split_single, piece_end, split};
use crate::status::{FileStatus, StatusMap};

verus! {

/// The byte that ends a record.
pub const NUL: u8 = 0x00;

/// The byte between the state codes and the path.
pub const SPACE: u8 = 0x20;

/// State code `D`: deleted.
pub const DELETED: u8 = 0x44;

/// State code `A`: added to the index.
pub const ADDED: u8 = 0x41;

/// State code `?`: untracked.
pub const UNTRACKED: u8 = 0x3f;

/// State code `!`: ignored.
pub const IGNORED: u8 = 0x21;

/// The state that counts: a file that is deleted in the working tree is
/// deleted, whatever the index says of it.
pub open spec fn effective_state(index_state: u8, worktree_state: u8) -> u8 {
    if worktree_state == DELETED {
        DELETED
    } else {
        index_state
    }
}

/// The canonical status of a file with the given two state codes.
pub open spec fn file_status(index_state: u8, worktree_state: u8) -> FileStatus {
    let state = effective_state(index_state, worktree_state);
    if state == DELETED {
        FileStatus::Removed
    } else if state == ADDED || state == UNTRACKED {
        FileStatus::Added
    } else if state == IGNORED {
        FileStatus::Ignored
    } else {
        FileStatus::Modified
    }
}

/// Whether `record` has the layout that the decoder reads: at least three
/// bytes, the third of them a space.
pub open spec fn is_readable(record: Seq<u8>) -> bool {
    record.len() > 2 && record[2] == SPACE
}

/// The path and status that `record` reports, if it is readable and its
/// path is a repository path.
pub open spec fn record_entry(record: Seq<u8>) -> Option<(Seq<u8>, FileStatus)> {
    if is_readable(record) && is_repo_path(record.skip(3)) {
        Some((record.skip(3), file_status(record[0], record[1])))
    } else {
        None
    }
}

/// The mapping that a run of records reports: each record that has an
/// entry sets the status of its path, a later record overriding an earlier
/// one for the same path.
pub open spec fn status_of_records(records: Seq<Seq<u8>>) -> Map<Seq<u8>, FileStatus>
    decreases records.len(),
{
    if records.len() == 0 {
        Map::empty()
    } else {
        let earlier = status_of_records(records.drop_last());
        match record_entry(records.last()) {
            Some((path, status)) => earlier.insert(path, status),
            None => earlier,
        }
    }
}

/// The mapping that a status report stands for.
pub open spec fn status_of_output(output: Seq<u8>) -> Map<Seq<u8>, FileStatus> {
    status_of_records(split(output, NUL))
}

/// The canonical status of a file with the given two state codes.
pub fn classify(index_state: u8, worktree_state: u8) -> (status: FileStatus)
    ensures
        status == file_status(index_state, worktree_state),
        worktree_state == DELETED ==> status == FileStatus::Removed,
{
    let state: u8 = if worktree_state == DELETED {
        worktree_state
    } else {
        index_state
    };
    if state == DELETED {
        FileStatus::Removed
    } else if state == ADDED || state == UNTRACKED {
        FileStatus::Added
    } else if state == IGNORED {
        FileStatus::Ignored
    } else {
        FileStatus::Modified
    }
}

/// Decodes one record, without the NUL that ends it.
pub fn decode_record(record: &[u8]) -> (entry: Option<(RepoPathBuf, FileStatus)>)
    ensures
        match entry {
            Some((path, status)) => record_entry(record@) == Some((path@, status)),
            None => record_entry(record@) is None,
        },
{
    if record.len() < 3 || record[2] != SPACE {
        return None;
    }
    let path_bytes = slice_to_vec(slice_subrange(record, 3, record.len()));
    assert(path_bytes@ =~= record@.skip(3));
    match RepoPathBuf::from_utf8(path_bytes) {
        Ok(path) => Some((path, classify(record[0], record[1]))),
        Err(_) => None,
    }
}

/// Decodes a whole status report.
pub fn decode_status(output: &[u8]) -> (statuses: StatusMap)
    ensures
        statuses@ == status_of_output(output@),
{
    let mut statuses = StatusMap::new();
    let mut start: usize = 0;
    let ghost mut done: Seq<Seq<u8>> = Seq::empty();
    proof {
        assert(output@.skip(0) =~= output@);
        assert(done + split(output@, NUL) =~= split(output@, NUL));
    }
    loop
        invariant
            start <= output.len(),
            split(output@, NUL) == done + split(output@.skip(start as int), NUL),
            statuses@ == status_of_records(done),
        decreases output.len() - start,
    {
        let end: usize = piece_end(output, start, NUL);
        let record = slice_subrange(output, start, end);
        let ghost before = done;
        match decode_record(record) {
            Some((path, status)) => {
                statuses.insert(path, status);
            },
            None => {},
        }
        proof {
            let tail = output@.skip(start as int);
            done = before.push(record@);
            assert(done.drop_last() =~= before);
            assert(done.last() == record@);
            if end < output.len() {
                assert(tail.take(end - start) =~= record@);
                assert(tail.skip(end - start + 1) =~= output@.skip(end + 1));
                assert(before + (seq![record@] + split(output@.skip(end + 1), NUL)) =~= done
                    + split(output@.skip(end + 1), NUL));
            } else {
                assert(tail =~= record@);
                assert(before + seq![record@] =~= done);
            }
        }
        if end >= output.len() {
            return statuses;
        }
        start = end + 1;
    }
}

/// A file that is deleted in the working tree is reported as removed,
/// whatever its state in the index.
pub proof fn lemma_worktree_deletion_wins(index_state: u8)
    ensures
        file_status(index_state, DELETED) == FileStatus::Removed,
{
}

/// A record with an entry whose working-tree state is "deleted" reports
/// its path as removed.
pub proof fn lemma_deleted_record_is_removed(record: Seq<u8>)
    requires
        record_entry(record) is Some,
        record[1] == DELETED,
    ensures
        record_entry(record) == Some((record.skip(3), FileStatus::Removed)),
{
}

/// A record whose third byte is not a space, or that is too short to have
/// one, has no entry.
pub proof fn lemma_unreadable_record_has_no_entry(record: Seq<u8>)
    requires
        record.len() <= 2 || record[2] != SPACE,
    ensures
        record_entry(record) is None,
{
}

/// A record without an entry leaves the reported mapping as it would be
/// without that record.
pub proof fn lemma_record_without_entry_is_passed_over(records: Seq<Seq<u8>>, at: int)
    requires
        0 <= at < records.len(),
        record_entry(records[at]) is None,
    ensures
        status_of_records(records) == status_of_records(records.remove(at)),
    decreases records.len(),
{
    if at == records.len() - 1 {
        assert(records.remove(at) =~= records.drop_last());
    } else {
        lemma_record_without_entry_is_passed_over(records.drop_last(), at);
        assert(records.remove(at).drop_last() =~= records.drop_last().remove(at));
        assert(records.remove(at).last() == records.last());
    }
}

/// A report of one record stands for what that record reports.
proof fn lemma_single_record_report(record: Seq<u8>)
    requires
        forall|k: int| 0 <= k < record.len() ==> record[k] != NUL,
    ensures
        status_of_output(record + seq![NUL]) == status_of_records(seq![record]),
{
    let nothing = Seq::<u8>::empty();
    lemma_split_single(record, NUL);
    lemma_split_single(nothing, NUL);
    lemma_split_joined(record, nothing, NUL);
    assert(record + seq![NUL] + nothing =~= record + seq![NUL]);
    let records = seq![record] + seq![nothing];
    assert(records.last() == nothing);
    assert(records.drop_last() =~= seq![record]);
    assert(record_entry(nothing) is None);
}

/// A record written as two state codes, a space and a repository path is
/// read back as that path with the status of the two codes; and a report
/// of that one record stands for the mapping with that one entry.
pub proof fn lemma_written_record_is_read(index_state: u8, worktree_state: u8, path: Seq<u8>)
    requires
        is_repo_path(path),
    ensures
        record_entry(seq![index_state, worktree_state, SPACE] + path) == Some(
            (path, file_status(index_state, worktree_state)),
        ),
        index_state != NUL && worktree_state != NUL ==> status_of_output(
            seq![index_state, worktree_state, SPACE] + path + seq![NUL],
        ) == Map::<Seq<u8>, FileStatus>::empty().insert(
            path,
            file_status(index_state, worktree_state),
        ),
{
    let record = seq![index_state, worktree_state, SPACE] + path;
    assert(record.skip(3) =~= path);
    if index_state != NUL && worktree_state != NUL {
        lemma_repo_path_holds_no_forbidden_byte(path);
        assert forall|k: int| 0 <= k < record.len() implies record[k] != NUL by {
            if k >= 3 {
                assert(record[k] == path[k - 3]);
            }
        }
        lemma_single_record_report(record);
        let one = seq![record];
        assert(one.last() == record);
        assert(one.drop_last() =~= Seq::<Seq<u8>>::empty());
        assert(status_of_records(one.drop_last()) == Map::<Seq<u8>, FileStatus>::empty());
    }
}

/// The records `head`, then one record without an entry, then the records
/// `rest` report what `head` and `rest` report without it.
proof fn lemma_passed_over_between(head: Seq<Seq<u8>>, record: Seq<u8>, rest: Seq<Seq<u8>>)
    requires
        record_entry(record) is None,
    ensures
        status_of_records(head + seq![record] + rest) == status_of_records(head + rest),
{
    let all = head + seq![record] + rest;
    assert(all[head.len() as int] == record);
    lemma_record_without_entry_is_passed_over(all, head.len() as int);
    assert(all.remove(head.len() as int) =~= head + rest);
}

/// A record of a report whose third byte is not a space, or that is too
/// short to have one, leaves the decoded mapping as it would be without
/// that record: it adds no entry and does not make the decoding fail. The
/// record stands at the start of the report, or after the NUL that ends
/// `before`.
pub proof fn lemma_unreadable_record_is_passed_over(
    before: Seq<u8>,
    record: Seq<u8>,
    after: Seq<u8>,
)
    requires
        forall|k: int| 0 <= k < record.len() ==> record[k] != NUL,
        record.len() <= 2 || record[2] != SPACE,
    ensures
        status_of_output(record + seq![NUL] + after) == status_of_output(after),
        status_of_output(before + seq![NUL] + record + seq![NUL] + after) == status_of_output(
            before + seq![NUL] + after,
        ),
{
    let tail = record + seq![NUL] + after;
    lemma_split_single(record, NUL);
    lemma_split_joined(record, after, NUL);
    assert(split(tail, NUL) == seq![record] + split(after, NUL));
    lemma_passed_over_between(Seq::empty(), record, split(after, NUL));
    assert(Seq::<Seq<u8>>::empty() + seq![record] + split(after, NUL) =~= split(tail, NUL));
    assert(Seq::<Seq<u8>>::empty() + split(after, NUL) =~= split(after, NUL));

    lemma_unreadable_record_in_the_middle(before, record, after);
}

/// The second claim of `lemma_unreadable_record_is_passed_over`.
proof fn lemma_unreadable_record_in_the_middle(before: Seq<u8>, record: Seq<u8>, after: Seq<u8>)
    requires
        forall|k: int| 0 <= k < record.len() ==> record[k] != NUL,
        record_entry(record) is None,
    ensures
        status_of_output(before + seq![NUL] + record + seq![NUL] + after) == status_of_output(
            before + seq![NUL] + after,
        ),
{
    let tail = record + seq![NUL] + after;
    lemma_split_single(record, NUL);
    lemma_split_joined(record, after, NUL);
    lemma_split_joined(before, tail, NUL);
    lemma_split_joined(before, after, NUL);
    assert(before + seq![NUL] + record + seq![NUL] + after =~= before + seq![NUL] + tail);
    assert(split(before, NUL) + (seq![record] + split(after, NUL)) =~= split(before, NUL)
        + seq![record] + split(after, NUL));
    lemma_passed_over_between(split(before, NUL), record, split(after, NUL));
}

/// When the last record that reports a path has the working-tree state
/// "deleted", the mapping holds that path as removed, whatever the state
/// in the index.
pub proof fn lemma_deleted_in_worktree_is_reported_removed(records: Seq<Seq<u8>>, at: int)
    requires
        0 <= at < records.len(),
        record_entry(records[at]) is Some,
        records[at][1] == DELETED,
        forall|j: int|
            at < j < records.len() ==> !(#[trigger] record_entry(records[j]) is Some
                && records[j].skip(3) == records[at].skip(3)),
    ensures
        status_of_records(records).contains_key(records[at].skip(3)),
        status_of_records(records)[records[at].skip(3)] == FileStatus::Removed,
{
    lemma_status_comes_from_last_record(records, records[at].skip(3));
}

/// Every key of the reported mapping is the path of a record with an
/// entry, and the status it maps to is that of the last such record.
pub proof fn lemma_status_comes_from_last_record(records: Seq<Seq<u8>>, path: Seq<u8>)
    ensures
        status_of_records(records).contains_key(path) <==> exists|i: int|
            0 <= i < records.len() && #[trigger] record_entry(records[i]) is Some && records[i].skip(
                3,
            ) == path,
        forall|i: int|
            0 <= i < records.len() && #[trigger] record_entry(records[i]) is Some && records[i].skip(
                3,
            ) == path && (forall|j: int|
                i < j < records.len() ==> !(#[trigger] record_entry(records[j]) is Some
                    && records[j].skip(3) == path)) ==> status_of_records(records)[path]
                == file_status(records[i][0], records[i][1]),
    decreases records.len(),
{
    if records.len() > 0 {
        let earlier = records.drop_last();
        let last = records.len() - 1;
        lemma_status_comes_from_last_record(earlier, path);
        assert forall|i: int| 0 <= i < earlier.len() implies earlier[i] == records[i] by {}
        if status_of_records(records).contains_key(path) {
            if record_entry(records[last]) is Some && records[last].skip(3) == path {
            } else {
                assert(status_of_records(earlier).contains_key(path));
                let i = choose|i: int|
                    0 <= i < earlier.len() && #[trigger] record_entry(earlier[i]) is Some
                        && earlier[i].skip(3) == path;
                assert(record_entry(records[i]) is Some && records[i].skip(3) == path);
            }
        }
        if exists|i: int|
            0 <= i < records.len() && #[trigger] record_entry(records[i]) is Some && records[i].skip(
                3,
            ) == path {
            let i = choose|i: int|
                0 <= i < records.len() && #[trigger] record_entry(records[i]) is Some
                    && records[i].skip(3) == path;
            if i < last {
                assert(record_entry(earlier[i]) is Some && earlier[i].skip(3) == path);
            }
        }
        assert forall|i: int|
            0 <= i < records.len() && #[trigger] record_entry(records[i]) is Some && records[i].skip(
                3,
            ) == path && (forall|j: int|
                i < j < records.len() ==> !(#[trigger] record_entry(records[j]) is Some
                    && records[j].skip(3) == path)) implies status_of_records(records)[path]
            == file_status(records[i][0], records[i][1]) by {
            if i < last {
                assert(!(record_entry(records[last]) is Some && records[last].skip(3) == path));
                assert(record_entry(earlier[i]) is Some && earlier[i].skip(3) == path);
                assert forall|j: int| i < j < earlier.len() implies !(#[trigger] record_entry(
                    earlier[j],
                ) is Some && earlier[j].skip(3) == path) by {
                    assert(earlier[j] == records[j]);
                }
            }
        }
    }
}

} // verus!
