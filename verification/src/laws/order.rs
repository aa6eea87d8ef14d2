//! The order of what is written: the worksheets follow the declared
//! identifiers, and every scope counts its relationships from one.

use crate::layout::{worksheet_relationships, xl_relationships};
use crate::model::{emitted, is_first_sheet, sheet_index, SheetEntry, Worksheet, Xl};
use crate::relationships::sequential;
use vstd::prelude::*;

verus! {

/// The relationships of the workbook carry the ids of their positions, from
/// `rId1` on, whatever the worksheets hold.
pub proof fn lemma_workbook_ids_sequential(xl: Xl)
    ensures
        sequential(xl_relationships(xl)),
{
}

/// The relationships of a worksheet carry the ids of their positions, from
/// `rId1` on, at whatever position the worksheet is written: no worksheet
/// goes on where another or the workbook left off.
pub proof fn lemma_worksheet_ids_sequential(ws: Worksheet, idx: nat)
    ensures
        sequential(worksheet_relationships(ws, idx)),
{
}

/// Every worksheet that is written is one that a declared identifier stands
/// for, and none is written twice.
pub proof fn lemma_emitted_sound(declared: Seq<Seq<char>>, sheets: Seq<SheetEntry>)
    ensures
        forall|k: int|
            0 <= k < emitted(declared, sheets).len() ==> {
                &&& 0 <= (#[trigger] emitted(declared, sheets)[k]) < sheets.len()
                &&& exists|i: int|
                    0 <= i < declared.len() && sheet_index(sheets, #[trigger] declared[i]) == Some(
                        emitted(declared, sheets)[k],
                    )
            },
        forall|k: int, m: int|
            0 <= k < m < emitted(declared, sheets).len() ==> (#[trigger] emitted(
                declared,
                sheets,
            )[k]) != (#[trigger] emitted(declared, sheets)[m]),
    decreases declared.len(),
{
    if declared.len() > 0 {
        let shorter = declared.drop_last();
        let before = emitted(shorter, sheets);
        let now = emitted(declared, sheets);
        lemma_emitted_sound(shorter, sheets);
        assert forall|k: int| 0 <= k < now.len() implies {
            &&& 0 <= (#[trigger] now[k]) < sheets.len()
            &&& exists|i: int|
                0 <= i < declared.len() && sheet_index(sheets, #[trigger] declared[i]) == Some(
                    now[k],
                )
        } by {
            if k < before.len() {
                assert(now[k] == before[k]);
                let i = choose|i: int|
                    0 <= i < shorter.len() && sheet_index(sheets, #[trigger] shorter[i]) == Some(
                        before[k],
                    );
                assert(declared[i] == shorter[i]);
            } else {
                let last = declared.len() - 1;
                assert(sheet_index(sheets, declared[last]) == Some(now[k]));
                assert(is_first_sheet(sheets, declared[last], now[k]));
            }
        }
        assert forall|k: int, m: int| 0 <= k < m < now.len() implies (#[trigger] now[k]) != (
        #[trigger] now[m]) by {
            if m < before.len() {
                assert(now[k] == before[k]);
                assert(now[m] == before[m]);
            } else {
                assert(now[k] == before[k]);
                assert(!before.contains(now[m]));
            }
        }
    }
}

/// Every worksheet that a declared identifier stands for is written: only
/// the identifiers that no worksheet carries are passed over.
pub proof fn lemma_emitted_complete(declared: Seq<Seq<char>>, sheets: Seq<SheetEntry>, i: int)
    requires
        0 <= i < declared.len(),
    ensures
        sheet_index(sheets, declared[i]) matches Some(j) ==> emitted(declared, sheets).contains(j),
    decreases declared.len(),
{
    let shorter = declared.drop_last();
    let before = emitted(shorter, sheets);
    let now = emitted(declared, sheets);
    if i < declared.len() - 1 {
        lemma_emitted_complete(shorter, sheets, i);
        assert(shorter[i] == declared[i]);
        if let Some(j) = sheet_index(sheets, declared[i]) {
            let k = choose|k: int| 0 <= k < before.len() && before[k] == j;
            assert(now[k] == j);
        }
    } else {
        if let Some(j) = sheet_index(sheets, declared[i]) {
            if before.contains(j) {
                assert(now == before);
            } else {
                assert(now[now.len() - 1] == j);
            }
        }
    }
}

/// The worksheets are written in the order in which their identifiers are
/// declared: what the first `i` identifiers give is written first, and in
/// the same order, whatever is declared behind them.
pub proof fn lemma_emitted_grows(declared: Seq<Seq<char>>, sheets: Seq<SheetEntry>, i: int)
    requires
        0 <= i <= declared.len(),
    ensures
        emitted(declared.take(i), sheets).is_prefix_of(emitted(declared, sheets)),
    decreases declared.len() - i,
{
    if i == declared.len() {
        assert(declared.take(i) =~= declared);
    } else {
        lemma_emitted_grows(declared, sheets, i + 1);
        let longer = declared.take(i + 1);
        assert(longer.drop_last() =~= declared.take(i));
        let a = emitted(declared.take(i), sheets);
        let b = emitted(longer, sheets);
        let c = emitted(declared, sheets);
        assert(a.is_prefix_of(b));
        assert(a =~= c.subrange(0, a.len() as int)) by {
            assert(b =~= c.subrange(0, b.len() as int));
            assert forall|k: int| 0 <= k < a.len() implies a[k] == c[k] by {
                assert(a[k] == b[k]);
                assert(b[k] == c.subrange(0, b.len() as int)[k]);
            }
        }
    }
}

} // verus!
