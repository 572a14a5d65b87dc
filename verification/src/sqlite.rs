//! Rows of the database and the steps of recording a source.

use vstd::prelude::*;

verus! {

/// A recorded favourite list.
#[derive(Debug, PartialEq, Eq)]
pub struct Source {
    pub id: u32,
    /// The list's decimal id.
    pub link: String,
    pub title: String,
}

/// A recorded video.
#[derive(Debug, PartialEq, Eq)]
pub struct Content {
    pub id: u32,
    /// Id of the source the video was found in.
    pub source_id: u32,
    /// The video's page address; unique among the contents.
    pub link: String,
    pub title: String,
}

/// Where the recording of a source stands.
#[derive(Debug, Clone, Copy, PartialEq, Eq, Structural)]
pub enum RegisterStep {
    /// Look up whether a source with the link is recorded.
    Lookup,
    /// Insert a source with the link and title.
    Insert,
    /// Read the id of the source with the link.
    ReadId,
    /// Done: the source's id.
    Done(u32),
}

/// An answer of the database.
#[derive(Debug, Clone, Copy, PartialEq, Eq, Structural)]
pub enum StoreReply {
    /// Whether a row with the link exists.
    Present(bool),
    /// The row was inserted.
    Inserted,
    /// The id of the first row with the link, if any.
    Row(Option<u32>),
}

/// Whether `reply` answers `step`.
pub open spec fn register_accepts(step: RegisterStep, reply: StoreReply) -> bool {
    match step {
        RegisterStep::Lookup => reply is Present,
        RegisterStep::Insert => reply is Inserted,
        RegisterStep::ReadId => reply is Row,
        RegisterStep::Done(_) => false,
    }
}

/// The step an accepted answer leads to.
pub open spec fn register_after(reply: StoreReply) -> RegisterStep {
    match reply {
        StoreReply::Present(true) => RegisterStep::ReadId,
        StoreReply::Present(false) => RegisterStep::Insert,
        StoreReply::Inserted => RegisterStep::ReadId,
        StoreReply::Row(Some(id)) => RegisterStep::Done(id),
        StoreReply::Row(None) => RegisterStep::Done(0),
    }
}

/// The step after a run of answers from the lookup, or `None` when one of them
/// does not answer the step it came in.
pub open spec fn register_run(replies: Seq<StoreReply>) -> Option<RegisterStep>
    decreases replies.len(),
{
    if replies.len() == 0 {
        Some(RegisterStep::Lookup)
    } else {
        match register_run(replies.drop_last()) {
            Some(step) => if register_accepts(step, replies.last()) {
                Some(register_after(replies.last()))
            } else {
                None
            },
            None => None,
        }
    }
}

impl Source {
    /// The next step of recording a source, which starts at `RegisterStep::Lookup`:
    /// a link not yet recorded is inserted;
    /// then the id is read; the id of the row found is the result, and 0 when no
    /// row is found.
    pub fn register_next(step: RegisterStep, reply: StoreReply) -> (next: RegisterStep)
        requires
            register_accepts(step, reply),
        ensures
            next == register_after(reply),
    {
        match reply {
            StoreReply::Present(true) => RegisterStep::ReadId,
            StoreReply::Present(false) => RegisterStep::Insert,
            StoreReply::Inserted => RegisterStep::ReadId,
            StoreReply::Row(Some(id)) => RegisterStep::Done(id),
            StoreReply::Row(None) => RegisterStep::Done(0),
        }
    }
}

/// Whether a video is inserted, given whether its link is recorded.
pub open spec fn content_insert_needed(already_present: bool) -> bool {
    !already_present
}

impl Content {
    /// A video is inserted only when its link is not recorded yet.
    pub fn insert_needed(already_present: bool) -> (insert: bool)
        ensures
            insert == content_insert_needed(already_present),
    {
        !already_present
    }
}

/// Recording a source whose link is already present never inserts a second row:
/// every accepted run that starts with "present" holds no insert, and one that
/// finishes returns the id read.
pub proof fn lemma_present_source_not_inserted(replies: Seq<StoreReply>)
    requires
        register_run(replies) is Some,
        replies.len() >= 1,
        replies[0] == StoreReply::Present(true),
    ensures
        !replies.contains(StoreReply::Inserted),
        replies.len() <= 2,
        replies.len() == 2 ==> replies[1] is Row && register_run(replies) == Some(register_after(replies[1])),
{
    lemma_register_runs(replies);
    if replies.contains(StoreReply::Inserted) {
        let k = choose|k: int| 0 <= k < replies.len() && replies[k] == StoreReply::Inserted;
        assert(k == 1);
    }
    if replies.len() == 2 {
        assert(replies.drop_last() =~= seq![replies[0]]);
    }
}

/// Every accepted run of answers is a prefix of "absent, inserted, row" or of
/// "present, row".
pub proof fn lemma_register_runs(replies: Seq<StoreReply>)
    requires
        register_run(replies) is Some,
    ensures
        replies.len() <= 3,
        replies.len() >= 1 ==> replies[0] is Present,
        replies.len() >= 2 && replies[0] == StoreReply::Present(true) ==> replies[1] is Row && replies.len() == 2,
        replies.len() >= 2 && replies[0] == StoreReply::Present(false) ==> replies[1] == StoreReply::Inserted,
        replies.len() == 3 ==> replies[0] == StoreReply::Present(false) && replies[2] is Row,
        register_run(replies) == Some(RegisterStep::Insert) ==> replies == seq![StoreReply::Present(false)],
        register_run(replies) == Some(RegisterStep::ReadId) ==> (replies == seq![StoreReply::Present(true)]
            || replies == seq![StoreReply::Present(false), StoreReply::Inserted]),
    decreases replies.len(),
{
    if replies.len() > 0 {
        let prev = replies.drop_last();
        lemma_register_runs(prev);
        if prev.len() == 0 {
            assert(replies == seq![replies[0]]);
        } else if prev.len() == 1 {
            assert(replies =~= seq![prev[0], replies.last()]);
        } else if prev.len() == 2 {
            assert(replies =~= seq![prev[0], prev[1], replies.last()]);
        }
    }
}

/// Whether some row of the sources table, as (link, id) pairs in insertion order,
/// has `link`.
pub open spec fn has_link(rows: Seq<(Seq<char>, u32)>, link: Seq<char>) -> bool {
    exists|i: int| 0 <= i < rows.len() && rows[i].0 == link
}

/// The id of the first row with `link`. The lookup itself may read any row with
/// the link; the laws below are stated for tables whose links are distinct, where
/// there is only one such row (`lemma_first_id_unique`).
pub open spec fn first_id(rows: Seq<(Seq<char>, u32)>, link: Seq<char>) -> Option<u32>
    decreases rows.len(),
{
    if rows.len() == 0 {
        None
    } else if rows[0].0 == link {
        Some(rows[0].1)
    } else {
        first_id(rows.drop_first(), link)
    }
}

/// No two rows share a link.
pub open spec fn links_distinct(rows: Seq<(Seq<char>, u32)>) -> bool {
    forall|i: int, j: int| 0 <= i < j < rows.len() ==> rows[i].0 != rows[j].0
}

/// The answers a sources table with `rows` gives while `link` is recorded, when it
/// answers truthfully and gives a new row the id `fresh`; and its rows afterwards.
pub open spec fn register_against(rows: Seq<(Seq<char>, u32)>, link: Seq<char>, fresh: u32) -> (
    Seq<StoreReply>,
    Seq<(Seq<char>, u32)>,
) {
    if has_link(rows, link) {
        (seq![StoreReply::Present(true), StoreReply::Row(first_id(rows, link))], rows)
    } else {
        let after = rows.push((link, fresh));
        (
            seq![StoreReply::Present(false), StoreReply::Inserted, StoreReply::Row(first_id(after, link))],
            after,
        )
    }
}

proof fn lemma_first_id_found(rows: Seq<(Seq<char>, u32)>, link: Seq<char>)
    requires
        has_link(rows, link),
    ensures
        first_id(rows, link) is Some,
    decreases rows.len(),
{
    let i = choose|i: int| 0 <= i < rows.len() && rows[i].0 == link;
    if rows[0].0 != link {
        assert(rows.drop_first()[i - 1].0 == link);
        lemma_first_id_found(rows.drop_first(), link);
    }
}

proof fn lemma_first_id_push(rows: Seq<(Seq<char>, u32)>, row: (Seq<char>, u32), link: Seq<char>)
    ensures
        has_link(rows, link) ==> first_id(rows.push(row), link) == first_id(rows, link),
        !has_link(rows, link) && row.0 == link ==> first_id(rows.push(row), link) == Some(row.1),
    decreases rows.len(),
{
    let after = rows.push(row);
    if rows.len() == 0 {
        assert(after.drop_first() =~= Seq::<(Seq<char>, u32)>::empty());
    } else {
        assert(after.drop_first() =~= rows.drop_first().push(row));
        if rows[0].0 != link {
            lemma_first_id_push(rows.drop_first(), row, link);
            if has_link(rows, link) {
                let i = choose|i: int| 0 <= i < rows.len() && rows[i].0 == link;
                assert(rows.drop_first()[i - 1].0 == link);
            }
            if has_link(rows.drop_first(), link) {
                let i = choose|i: int| 0 <= i < rows.drop_first().len() && rows.drop_first()[i].0 == link;
                assert(rows[i + 1].0 == link);
            }
        } else {
            assert(rows[0].0 == link);
            assert(has_link(rows, link));
        }
    }
}

/// In a table whose links are distinct, every row with `link` carries the id
/// `first_id` gives: which row the lookup reads makes no difference.
pub proof fn lemma_first_id_unique(rows: Seq<(Seq<char>, u32)>, link: Seq<char>, j: int)
    requires
        links_distinct(rows),
        0 <= j < rows.len(),
        rows[j].0 == link,
    ensures
        first_id(rows, link) == Some(rows[j].1),
    decreases rows.len(),
{
    if rows[0].0 != link {
        let rest = rows.drop_first();
        assert(j > 0);
        assert(rest[j - 1] == rows[j]);
        assert forall|a: int, b: int| 0 <= a < b < rest.len() implies rest[a].0 != rest[b].0 by {
            assert(rest[a] == rows[a + 1] && rest[b] == rows[b + 1]);
        }
        lemma_first_id_unique(rest, link, j - 1);
    } else if j != 0 {
        assert(rows[0].0 == rows[j].0);
    }
}

proof fn lemma_present_row_run(id: Option<u32>)
    ensures
        register_run(seq![StoreReply::Present(true), StoreReply::Row(id)]) == Some(
            register_after(StoreReply::Row(id)),
        ),
{
    let r = seq![StoreReply::Present(true), StoreReply::Row(id)];
    let r1 = seq![StoreReply::Present(true)];
    assert(r1.drop_last() =~= Seq::<StoreReply>::empty());
    assert(register_run(Seq::<StoreReply>::empty()) == Some(RegisterStep::Lookup));
    assert(register_run(r1) == Some(RegisterStep::ReadId));
    assert(r.drop_last() =~= r1);
    assert(r.last() == StoreReply::Row(id));
}

proof fn lemma_absent_row_run(id: Option<u32>)
    ensures
        register_run(seq![StoreReply::Present(false), StoreReply::Inserted, StoreReply::Row(id)]) == Some(
            register_after(StoreReply::Row(id)),
        ),
{
    let r = seq![StoreReply::Present(false), StoreReply::Inserted, StoreReply::Row(id)];
    let r1 = seq![StoreReply::Present(false)];
    let r2 = seq![StoreReply::Present(false), StoreReply::Inserted];
    assert(r1.drop_last() =~= Seq::<StoreReply>::empty());
    assert(register_run(Seq::<StoreReply>::empty()) == Some(RegisterStep::Lookup));
    assert(register_run(r1) == Some(RegisterStep::Insert));
    assert(r2.drop_last() =~= r1);
    assert(r2.last() == StoreReply::Inserted);
    assert(register_run(r2) == Some(RegisterStep::ReadId));
    assert(r.drop_last() =~= r2);
    assert(r.last() == StoreReply::Row(id));
}

/// Recording a source against a table that answers truthfully: the steps accept
/// every answer and finish with the id the lookup reads; the link is then recorded;
/// rows already there are kept; a link already recorded adds no row; and links that
/// were distinct stay distinct, the result then being the id of the one row with
/// the link.
pub proof fn lemma_register_against(rows: Seq<(Seq<char>, u32)>, link: Seq<char>, fresh: u32)
    ensures
        ({
            let (replies, after) = register_against(rows, link, fresh);
            &&& first_id(after, link) is Some
            &&& register_run(replies) == Some(RegisterStep::Done(first_id(after, link)->0))
            &&& has_link(after, link)
            &&& after.take(rows.len() as int) == rows
            &&& has_link(rows, link) ==> after == rows
            &&& !has_link(rows, link) ==> after == rows.push((link, fresh))
            &&& links_distinct(rows) ==> links_distinct(after)
            &&& links_distinct(rows) ==> forall|j: int| 0 <= j < after.len() && (#[trigger] after[j]).0 == link
                ==> after[j].1 == first_id(after, link)->0
        }),
{
    let (replies, after) = register_against(rows, link, fresh);
    lemma_first_id_push(rows, (link, fresh), link);
    if has_link(rows, link) {
        lemma_first_id_found(rows, link);
        lemma_present_row_run(first_id(rows, link));
    } else {
        lemma_absent_row_run(first_id(after, link));
        assert(after[rows.len() as int].0 == link);
        if links_distinct(rows) {
            assert forall|i: int, j: int| 0 <= i < j < after.len() implies after[i].0 != after[j].0 by {
                if j == rows.len() {
                    assert(rows[i].0 == after[i].0);
                } else {
                    assert(rows[i] == after[i] && rows[j] == after[j]);
                }
            }
        }
    }
    assert(after.take(rows.len() as int) =~= rows);
    if links_distinct(rows) {
        assert forall|j: int| 0 <= j < after.len() && (#[trigger] after[j]).0 == link implies after[j].1 == first_id(
            after,
            link,
        )->0 by {
            lemma_first_id_unique(after, link, j);
        }
    }
}

/// In a table whose links are distinct, recording the same source twice gives the
/// same id both times, and the second time leaves the table as the first left it:
/// there is never a second row for a link.
pub proof fn lemma_register_twice(rows: Seq<(Seq<char>, u32)>, link: Seq<char>, fresh1: u32, fresh2: u32)
    requires
        links_distinct(rows),
    ensures
        ({
            let (replies1, after1) = register_against(rows, link, fresh1);
            let (replies2, after2) = register_against(after1, link, fresh2);
            &&& after2 == after1
            &&& !replies2.contains(StoreReply::Inserted)
            &&& register_run(replies2) == register_run(replies1)
        }),
{
    let (replies1, after1) = register_against(rows, link, fresh1);
    let (replies2, after2) = register_against(after1, link, fresh2);
    lemma_register_against(rows, link, fresh1);
    lemma_register_against(after1, link, fresh2);
    lemma_present_row_run(first_id(after1, link));
    assert(replies2[0] == StoreReply::Present(true));
    lemma_present_source_not_inserted(replies2);
}

/// The recorded video links after inserting a video with `link` into a contents
/// table with `links`, deciding by the truthful answer whether it is recorded.
pub open spec fn insert_content_against(links: Seq<Seq<char>>, link: Seq<char>) -> Seq<Seq<char>> {
    if content_insert_needed(links.contains(link)) {
        links.push(link)
    } else {
        links
    }
}

/// Inserting a video against a table that answers truthfully records its link,
/// keeps the links already there, and keeps the links distinct; inserting it again
/// changes nothing.
pub proof fn lemma_insert_content_against(links: Seq<Seq<char>>, link: Seq<char>)
    ensures
        insert_content_against(links, link).contains(link),
        insert_content_against(links, link).take(links.len() as int) == links,
        links.no_duplicates() ==> insert_content_against(links, link).no_duplicates(),
        insert_content_against(insert_content_against(links, link), link) == insert_content_against(links, link),
{
    let after = insert_content_against(links, link);
    if !links.contains(link) {
        assert(after[links.len() as int] == link);
        if links.no_duplicates() {
            assert forall|i: int, j: int| 0 <= i < after.len() && 0 <= j < after.len() && i != j implies after[i]
                != after[j] by {
                if i == links.len() {
                    assert(links[j] == after[j]);
                } else if j == links.len() {
                    assert(links[i] == after[i]);
                } else {
                    assert(links[i] == after[i] && links[j] == after[j]);
                }
            }
        }
    }
    assert(after.take(links.len() as int) =~= links);
}

} // verus!
