//! What holds of the ledger over all states, senders and messages.
//!
//! The contracts of the operations are stated over the functions
//! `instantiate_spec`, `execute_spec`, `migrate_spec`, `block_data_spec` and
//! `latest_block_spec`; the laws below are proved of those.

use vstd::prelude::*;
use crate::error::{ContractError, MigrationError};
use crate::execute::{execute_spec, instantiate_spec, migrate_spec};
use crate::msg::{AnchorView, AnchoringMsgView, ExecuteMsgView};
use crate::query::{block_data_spec, latest_block_spec};
use crate::state::{upsert_all, RecordView, StoreView};
use crate::version::{agree_up_to, lex_less, VersionView};

verus! {

/// Some record of `records` names the height `h`.
pub open spec fn names_height(records: Seq<AnchorView>, h: Seq<char>) -> bool {
    exists|j: int| 0 <= j < records.len() && #[trigger] records[j].height == h
}

/// No record after the `i`-th names the height of the `i`-th.
pub open spec fn is_last_of_its_height(records: Seq<AnchorView>, i: int) -> bool {
    &&& 0 <= i < records.len()
    &&& forall|j: int| i < j < records.len() ==> #[trigger] records[j].height != records[i].height
}

/// A record of a batch that no later record of the batch overwrites is stored
/// exactly as it was given.
pub proof fn lemma_upsert_all_stores(m: Map<Seq<char>, RecordView>, records: Seq<AnchorView>, i: int)
    requires
        is_last_of_its_height(records, i),
    ensures
        upsert_all(m, records).contains_key(records[i].height),
        upsert_all(m, records)[records[i].height] == records[i].record(),
    decreases records.len(),
{
    if i < records.len() - 1 {
        let front = records.drop_last();
        assert(records.last() == records[records.len() - 1]);
        assert(front[i] == records[i]);
        assert forall|j: int| i < j < front.len() implies #[trigger] front[j].height
            != front[i].height by {
            assert(front[j] == records[j]);
        }
        lemma_upsert_all_stores(m, front, i);
    }
}

/// A batch leaves alone every height that none of its records names.
pub proof fn lemma_upsert_all_keeps(m: Map<Seq<char>, RecordView>, records: Seq<AnchorView>, h: Seq<char>)
    requires
        !names_height(records, h),
    ensures
        upsert_all(m, records).contains_key(h) == m.contains_key(h),
        m.contains_key(h) ==> upsert_all(m, records)[h] == m[h],
    decreases records.len(),
{
    if records.len() > 0 {
        let front = records.drop_last();
        assert(records.last() == records[records.len() - 1]);
        assert forall|j: int| 0 <= j < front.len() implies #[trigger] front[j].height != h by {
            assert(front[j] == records[j]);
        }
        lemma_upsert_all_keeps(m, front, h);
    }
}

/// Where a batch names a height, one of its records is the last to do so.
pub proof fn lemma_last_of_height(records: Seq<AnchorView>, h: Seq<char>) -> (i: int)
    requires
        names_height(records, h),
    ensures
        is_last_of_its_height(records, i),
        records[i].height == h,
    decreases records.len(),
{
    let n = records.len() - 1;
    if records[n].height == h {
        n
    } else {
        let front = records.drop_last();
        let j = choose|j: int| 0 <= j < records.len() && #[trigger] records[j].height == h;
        assert(front[j] == records[j]);
        let i = lemma_last_of_height(front, h);
        assert(front[i] == records[i]);
        assert forall|k: int| i < k < records.len() implies #[trigger] records[k].height
            != records[i].height by {
            if k < n {
                assert(front[k] == records[k]);
            }
        }
        i
    }
}

/// Storing a batch a second time changes nothing.
pub proof fn lemma_upsert_all_twice(m: Map<Seq<char>, RecordView>, records: Seq<AnchorView>)
    ensures
        upsert_all(upsert_all(m, records), records) == upsert_all(m, records),
{
    let once = upsert_all(m, records);
    let twice = upsert_all(once, records);
    assert forall|h: Seq<char>|
        #![trigger twice.dom().contains(h)]
        #![trigger once.dom().contains(h)]
        twice.dom().contains(h) == once.dom().contains(h) && (once.dom().contains(h) ==> twice[h]
            == once[h]) by {
        if names_height(records, h) {
            let i = lemma_last_of_height(records, h);
            lemma_upsert_all_stores(m, records, i);
            lemma_upsert_all_stores(once, records, i);
        } else {
            lemma_upsert_all_keeps(once, records, h);
        }
    }
    assert(twice =~= once);
}

/// A mutating message from anyone but the owner is refused with
/// `Unauthorized`, whatever it holds. (A refused message changes nothing:
/// that is part of the contract of `execute`.)
pub proof fn law_stranger_is_refused(s: StoreView, sender: Seq<char>, msg: ExecuteMsgView)
    requires
        s.config is Some,
        sender != s.config->Some_0.owner,
    ensures
        execute_spec(s, sender, msg) == Err::<StoreView, ContractError>(
            ContractError::Unauthorized,
        ),
{
}

/// After the owner's batch has been stored, a query for the height of any of
/// its records answers with the last record of the batch that names that
/// height, and a query for the latest height answers with the batch's
/// `latest`.
pub proof fn law_anchored_batch_is_served(
    s: StoreView,
    sender: Seq<char>,
    msg: AnchoringMsgView,
    i: int,
)
    requires
        s.config is Some,
        sender == s.config->Some_0.owner,
        is_last_of_its_height(msg.data, i),
    ensures
        execute_spec(s, sender, ExecuteMsgView::Anchoring(msg)) is Ok,
        block_data_spec(
            execute_spec(s, sender, ExecuteMsgView::Anchoring(msg))->Ok_0,
            msg.data[i].height,
        ) == Ok::<AnchorView, ContractError>(msg.data[i]),
        latest_block_spec(execute_spec(s, sender, ExecuteMsgView::Anchoring(msg))->Ok_0) == Ok::<
            Seq<char>,
            ContractError,
        >(msg.latest),
{
    lemma_upsert_all_stores(s.anchoring, msg.data, i);
}

/// An accepted message, sent once more, is accepted again and leaves the
/// state as the first time did.
pub proof fn law_anchoring_is_idempotent(s: StoreView, sender: Seq<char>, msg: ExecuteMsgView)
    requires
        execute_spec(s, sender, msg) is Ok,
    ensures
        execute_spec(execute_spec(s, sender, msg)->Ok_0, sender, msg) == execute_spec(
            s,
            sender,
            msg,
        ),
{
    match msg {
        ExecuteMsgView::Anchoring(m) => {
            lemma_upsert_all_twice(s.anchoring, m.data);
        },
    }
}

/// A migration succeeds if and only if the stored name is the candidate's and
/// the candidate's version is strictly greater than the stored one; it then
/// replaces the stored version and nothing else.
pub proof fn law_migration_needs_newer_version(s: StoreView, code: VersionView)
    requires
        s.version is Some,
    ensures
        migrate_spec(s, code) is Ok <==> s.version->Some_0.name == code.name && lex_less(
            s.version->Some_0.version,
            code.version,
        ),
        migrate_spec(s, code) is Ok ==> migrate_spec(s, code)->Ok_0 == (StoreView {
            version: Some(code),
            ..s
        }),
{
}

/// No text comes before itself.
pub proof fn lemma_lex_less_irreflexive(a: Seq<char>)
    ensures
        !lex_less(a, a),
{
}

/// Of two texts, at most one comes before the other.
pub proof fn lemma_lex_less_asymmetric(a: Seq<char>, b: Seq<char>)
    requires
        lex_less(a, b),
    ensures
        !lex_less(b, a),
{
    let k = choose|k: int| #[trigger]
        agree_up_to(a, b, k) && k < b.len() && (k == a.len() || (a[k] as int) < (b[k] as int));
    assert forall|j: int| #[trigger] agree_up_to(b, a, j) implies !(j < a.len() && (j == b.len() || (
    b[j] as int) < (a[j] as int))) by {
        if j < a.len() && (j == b.len() || (b[j] as int) < (a[j] as int)) {
            if k < j {
                assert(b[k] == a[k]);
            } else if j < k {
                assert(a[j] == b[j]);
            }
        }
    }
}

/// What comes before a text that comes before a third comes before the third.
pub proof fn lemma_lex_less_transitive(a: Seq<char>, b: Seq<char>, c: Seq<char>)
    requires
        lex_less(a, b),
        lex_less(b, c),
    ensures
        lex_less(a, c),
{
    let k = choose|k: int| #[trigger]
        agree_up_to(a, b, k) && k < b.len() && (k == a.len() || (a[k] as int) < (b[k] as int));
    let l = choose|l: int| #[trigger]
        agree_up_to(b, c, l) && l < c.len() && (l == b.len() || (b[l] as int) < (c[l] as int));
    let m = if k < l {
        k
    } else {
        l
    };
    assert forall|j: int| 0 <= j < m implies a[j] == c[j] by {
        assert(a[j] == b[j]);
        assert(b[j] == c[j]);
    }
    assert(agree_up_to(a, c, m));
    if k < l {
        assert(b[k] == c[k]);
    } else if l < k {
        assert(a[l] == b[l]);
    }
}

/// Of two different texts, one comes before the other.
pub proof fn lemma_lex_less_total(a: Seq<char>, b: Seq<char>)
    requires
        a != b,
    ensures
        lex_less(a, b) || lex_less(b, a),
{
    if forall|j: int| 0 <= j < a.len() && j < b.len() ==> a[j] == b[j] {
        if a.len() == b.len() {
            assert(a =~= b);
        } else if a.len() < b.len() {
            assert(agree_up_to(a, b, a.len() as int));
            assert(lex_less(a, b));
        } else {
            assert(agree_up_to(b, a, b.len() as int));
            assert(lex_less(b, a));
        }
    } else {
        let k = lemma_first_difference(a, b, 0);
        assert(agree_up_to(a, b, k));
        assert(agree_up_to(b, a, k));
        if (a[k] as int) < (b[k] as int) {
            assert(lex_less(a, b));
        } else {
            assert(lex_less(b, a));
        }
    }
}

/// Two texts that differ at some position both have from `from` on have a
/// first such position.
proof fn lemma_first_difference(a: Seq<char>, b: Seq<char>, from: int) -> (k: int)
    requires
        0 <= from,
        forall|j: int| 0 <= j < from && j < a.len() && j < b.len() ==> a[j] == b[j],
        exists|j: int| from <= j < a.len() && j < b.len() && a[j] != b[j],
    ensures
        from <= k < a.len(),
        k < b.len(),
        a[k] != b[k],
        forall|j: int| 0 <= j < k ==> a[j] == b[j],
    decreases a.len() - from,
{
    if a[from] != b[from] {
        from
    } else {
        lemma_first_difference(a, b, from + 1)
    }
}

/// A migration cannot be repeated or undone: once the code `code` has taken
/// the state over, neither `code` itself nor the version that it replaced is
/// accepted, and both are refused as not newer.
pub proof fn law_migration_is_one_way(s: StoreView, code: VersionView)
    requires
        migrate_spec(s, code) is Ok,
    ensures
        migrate_spec(migrate_spec(s, code)->Ok_0, code) == Err::<StoreView, ContractError>(
            ContractError::Migration(MigrationError::NotNewer),
        ),
        migrate_spec(migrate_spec(s, code)->Ok_0, s.version->Some_0) == Err::<
            StoreView,
            ContractError,
        >(ContractError::Migration(MigrationError::NotNewer)),
{
    lemma_lex_less_irreflexive(code.version);
    lemma_lex_less_asymmetric(s.version->Some_0.version, code.version);
}

/// One mutating operation, as the host delivers it.
pub enum Operation {
    Instantiate { sender: Seq<char>, code: VersionView },
    Execute { sender: Seq<char>, msg: ExecuteMsgView },
    Migrate { code: VersionView },
}

impl Operation {
    /// The operation is an anchoring message with a record for the height `h`.
    pub open spec fn submits(self, h: Seq<char>) -> bool {
        match self {
            Operation::Execute { sender, msg: ExecuteMsgView::Anchoring(m) } => names_height(
                m.data,
                h,
            ),
            _ => false,
        }
    }
}

/// The state after one operation: a failed operation leaves the state as it
/// was.
pub open spec fn step(s: StoreView, op: Operation) -> StoreView {
    match op {
        Operation::Instantiate { sender, code } => instantiate_spec(s, sender, code),
        Operation::Execute { sender, msg } => match execute_spec(s, sender, msg) {
            Ok(next) => next,
            Err(_) => s,
        },
        Operation::Migrate { code } => match migrate_spec(s, code) {
            Ok(next) => next,
            Err(_) => s,
        },
    }
}

/// The state after the operations `ops`, one after the other, from `s`.
pub open spec fn run(s: StoreView, ops: Seq<Operation>) -> StoreView
    decreases ops.len(),
{
    if ops.len() == 0 {
        s
    } else {
        step(run(s, ops.drop_last()), ops.last())
    }
}

/// A query for a height that no message ever submitted fails with `NotFound`,
/// whatever else has happened since the ledger was empty.
pub proof fn law_unsubmitted_height_is_not_found(ops: Seq<Operation>, h: Seq<char>)
    requires
        forall|i: int| 0 <= i < ops.len() ==> !(#[trigger] ops[i]).submits(h),
    ensures
        block_data_spec(run(StoreView::empty(), ops), h) == Err::<AnchorView, ContractError>(
            ContractError::NotFound,
        ),
    decreases ops.len(),
{
    if ops.len() > 0 {
        let front = ops.drop_last();
        assert forall|i: int| 0 <= i < front.len() implies !(#[trigger] front[i]).submits(h) by {
            assert(front[i] == ops[i]);
        }
        law_unsubmitted_height_is_not_found(front, h);
        let before = run(StoreView::empty(), front);
        assert(ops.last() == ops[ops.len() - 1]);
        match ops.last() {
            Operation::Execute { sender, msg: ExecuteMsgView::Anchoring(m) } => {
                lemma_upsert_all_keeps(before.anchoring, m.data, h);
            },
            _ => {},
        }
    }
}

/// Once the ledger is initialized, no message and no migration changes its
/// owner.
pub proof fn law_owner_is_fixed(s: StoreView, ops: Seq<Operation>)
    requires
        forall|i: int| 0 <= i < ops.len() ==> !((#[trigger] ops[i]) is Instantiate),
    ensures
        run(s, ops).config == s.config,
    decreases ops.len(),
{
    if ops.len() > 0 {
        let front = ops.drop_last();
        assert forall|i: int| 0 <= i < front.len() implies !((#[trigger] front[i]) is Instantiate) by {
            assert(front[i] == ops[i]);
        }
        law_owner_is_fixed(s, front);
        assert(ops.last() == ops[ops.len() - 1]);
    }
}

/// No operation ever deletes a record: a height that has a record keeps one.
pub proof fn law_records_are_never_deleted(s: StoreView, ops: Seq<Operation>, h: Seq<char>)
    requires
        s.anchoring.contains_key(h),
    ensures
        run(s, ops).anchoring.contains_key(h),
    decreases ops.len(),
{
    if ops.len() > 0 {
        let front = ops.drop_last();
        law_records_are_never_deleted(s, front, h);
        let before = run(s, front);
        match ops.last() {
            Operation::Execute { sender, msg: ExecuteMsgView::Anchoring(m) } => {
                if names_height(m.data, h) {
                    let i = lemma_last_of_height(m.data, h);
                    lemma_upsert_all_stores(before.anchoring, m.data, i);
                } else {
                    lemma_upsert_all_keeps(before.anchoring, m.data, h);
                }
            },
            _ => {},
        }
    }
}

} // verus!
