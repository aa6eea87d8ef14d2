//! The manifest of a package declares every part once: no two receipts name
//! the same path.

use crate::content_types::overrides_of;
use crate::decimal::{decimal, lemma_decimal_injective};
use crate::layout::{
    comments_path, doc_props_receipts, leading_receipts, optional_receipt, package_receipts,
    sheet_order, sheet_path, sheets_receipts, worksheet_receipts,
};
use crate::model::{SheetEntry, Workbook, Worksheet};
use crate::rtype::{content_type, RType};
use vstd::prelude::*;

verus! {

/// Whether no two receipts of a list name the same path.
pub open spec fn distinct_paths(receipts: Seq<(Seq<char>, RType)>) -> bool {
    forall|i: int, j: int|
        0 <= i < j < receipts.len() ==> (#[trigger] receipts[i]).0 != (#[trigger] receipts[j]).0
}

/// Whether `path` is that of the comments or of the body of the worksheet at
/// position `k`, one of the first `count`.
pub open spec fn is_sheet_path_at(path: Seq<char>, count: nat, k: nat) -> bool {
    1 <= k <= count && (path == comments_path(k) || path == sheet_path(k))
}

/// Whether `path` lies among the parts of the first `count` worksheets.
pub open spec fn is_sheet_path(path: Seq<char>, count: nat) -> bool {
    exists|k: nat| is_sheet_path_at(path, count, k)
}

/// The position of the worksheet that a path among the parts of the
/// worksheets belongs to.
pub proof fn lemma_sheet_path_position(path: Seq<char>, count: nat) -> (k: nat)
    requires
        is_sheet_path(path, count),
    ensures
        1 <= k <= count,
        path == comments_path(k) || path == sheet_path(k),
{
    choose|k: nat| is_sheet_path_at(path, count, k)
}

/// Text between the same head and the same tail is the same text where the
/// whole is.
pub proof fn lemma_affix_cancel(head: Seq<char>, a: Seq<char>, b: Seq<char>, tail: Seq<char>)
    requires
        head + a + tail == head + b + tail,
    ensures
        a == b,
{
    let x = head + a + tail;
    let y = head + b + tail;
    assert(x.len() == head.len() + a.len() + tail.len());
    assert(y.len() == head.len() + b.len() + tail.len());
    assert(a.len() == b.len());
    assert forall|i: int| 0 <= i < a.len() implies a[i] == b[i] by {
        assert(x[head.len() + i] == a[i]);
        assert(y[head.len() + i] == b[i]);
    }
    assert(a =~= b);
}

/// The comments of two positions lie at two paths.
proof fn lemma_comments_path_injective(a: nat, b: nat)
    requires
        comments_path(a) == comments_path(b),
    ensures
        a == b,
{
    lemma_affix_cancel("xl/comments"@, decimal(a), decimal(b), ".xml"@);
    lemma_decimal_injective(a, b);
}

/// The worksheets of two positions lie at two paths.
proof fn lemma_sheet_path_injective(a: nat, b: nat)
    requires
        sheet_path(a) == sheet_path(b),
    ensures
        a == b,
{
    lemma_affix_cancel("xl/worksheets/sheet"@, decimal(a), decimal(b), ".xml"@);
    lemma_decimal_injective(a, b);
}

/// The characters that tell the path of a worksheet's comments from every
/// other path.
pub proof fn lemma_comments_path_shape(k: nat)
    ensures
        comments_path(k).len() > 11,
        comments_path(k)[0] == 'x',
        comments_path(k)[3] == 'c',
{
    reveal_strlit("xl/comments");
    let p = comments_path(k);
    assert(p[0] == "xl/comments"@[0]);
    assert(p[3] == "xl/comments"@[3]);
}

/// The characters that tell the path of a worksheet from every other path.
pub proof fn lemma_sheet_path_shape(k: nat)
    ensures
        sheet_path(k).len() > 19,
        sheet_path(k)[0] == 'x',
        sheet_path(k)[3] == 'w',
        sheet_path(k)[7] == 's',
{
    reveal_strlit("xl/worksheets/sheet");
    let p = sheet_path(k);
    assert(p[0] == "xl/worksheets/sheet"@[0]);
    assert(p[3] == "xl/worksheets/sheet"@[3]);
    assert(p[7] == "xl/worksheets/sheet"@[7]);
}

/// Two parts of the worksheets that lie at one path are the same part of the
/// same worksheet.
pub proof fn lemma_sheet_paths_differ(a: nat, b: nat)
    ensures
        comments_path(a) != sheet_path(b),
        a != b ==> comments_path(a) != comments_path(b),
        a != b ==> sheet_path(a) != sheet_path(b),
{
    lemma_comments_path_shape(a);
    lemma_sheet_path_shape(b);
    if comments_path(a) == comments_path(b) {
        lemma_comments_path_injective(a, b);
    }
    if sheet_path(a) == sheet_path(b) {
        lemma_sheet_path_injective(a, b);
    }
}

/// The receipts of one worksheet: first that of its comments, where it has
/// any, then that of its body.
proof fn lemma_worksheet_receipts(ws: Worksheet, idx: nat)
    ensures
        distinct_paths(worksheet_receipts(ws, idx)),
        forall|i: int|
            0 <= i < worksheet_receipts(ws, idx).len() ==> {
                ||| (#[trigger] worksheet_receipts(ws, idx)[i]).0 == comments_path(idx)
                ||| worksheet_receipts(ws, idx)[i].0 == sheet_path(idx)
            },
{
    lemma_sheet_paths_differ(idx, idx);
    let own = worksheet_receipts(ws, idx);
    let first = optional_receipt(comments_path(idx), RType::Comments, ws.comments);
    let second = seq![(sheet_path(idx), RType::Worksheet)];
    assert(own == first + second);
    assert forall|i: int| 0 <= i < own.len() implies (#[trigger] own[i]).0 == (if i
        < first.len() {
        comments_path(idx)
    } else {
        sheet_path(idx)
    }) by {
        if i < first.len() {
            assert(own[i] == first[i]);
        } else {
            assert(own[i] == second[i - first.len()]);
        }
    }
}

/// The receipts of the worksheets name their paths once each, and every one
/// of them lies among the parts of the worksheets.
pub proof fn lemma_sheets_receipts(sheets: Seq<SheetEntry>, order: Seq<int>)
    ensures
        distinct_paths(sheets_receipts(sheets, order)),
        forall|i: int|
            0 <= i < sheets_receipts(sheets, order).len() ==> is_sheet_path(
                (#[trigger] sheets_receipts(sheets, order)[i]).0,
                order.len(),
            ),
    decreases order.len(),
{
    if order.len() > 0 {
        let n = order.len();
        let before = sheets_receipts(sheets, order.drop_last());
        let ws = sheets[order.last()].sheet;
        let own = worksheet_receipts(ws, n);
        let all = sheets_receipts(sheets, order);
        lemma_sheets_receipts(sheets, order.drop_last());
        lemma_worksheet_receipts(ws, n);
        assert(all == before + own);
        assert forall|i: int| 0 <= i < all.len() implies is_sheet_path(
            (#[trigger] all[i]).0,
            n,
        ) by {
            if i < before.len() {
                assert(all[i] == before[i]);
                assert(is_sheet_path(before[i].0, (n - 1) as nat));
                let k = lemma_sheet_path_position(before[i].0, (n - 1) as nat);
                assert(is_sheet_path_at(all[i].0, n, k));
            } else {
                assert(all[i] == own[i - before.len()]);
                assert(is_sheet_path_at(all[i].0, n, n));
            }
        }
        assert forall|i: int, j: int| 0 <= i < j < all.len() implies (#[trigger] all[i]).0 != (
        #[trigger] all[j]).0 by {
            if j < before.len() {
                assert(all[i] == before[i]);
                assert(all[j] == before[j]);
            } else if i < before.len() {
                assert(all[i] == before[i]);
                assert(all[j] == own[j - before.len()]);
                assert(is_sheet_path(before[i].0, (n - 1) as nat));
                let k = lemma_sheet_path_position(before[i].0, (n - 1) as nat);
                lemma_sheet_paths_differ(k, n);
                lemma_sheet_paths_differ(n, k);
                assert(own[j - before.len()].0 == comments_path(n) || own[j - before.len()].0
                    == sheet_path(n));
            } else {
                assert(all[i] == own[i - before.len()]);
                assert(all[j] == own[j - before.len()]);
            }
        }
    }
}

/// The place of a path among the parts of a package: the fixed parts in the
/// order of writing, with the parts of the worksheets, which share a place,
/// before the workbook descriptor.
pub open spec fn rank(path: Seq<char>) -> int {
    if path == "docProps/app.xml"@ {
        0
    } else if path == "docProps/core.xml"@ {
        1
    } else if path == "docProps/custom.xml"@ {
        2
    } else if path == "xl/sharedStrings.xml"@ {
        3
    } else if path == "xl/styles.xml"@ {
        4
    } else if path == "xl/theme/theme1.xml"@ {
        5
    } else if path == "xl/workbook.xml"@ {
        7
    } else {
        6
    }
}

/// The place of every fixed part.
proof fn lemma_fixed_ranks()
    ensures
        rank("docProps/app.xml"@) == 0,
        rank("docProps/core.xml"@) == 1,
        rank("docProps/custom.xml"@) == 2,
        rank("xl/sharedStrings.xml"@) == 3,
        rank("xl/styles.xml"@) == 4,
        rank("xl/theme/theme1.xml"@) == 5,
        rank("xl/workbook.xml"@) == 7,
{
    reveal_strlit("docProps/app.xml");
    reveal_strlit("docProps/core.xml");
    reveal_strlit("docProps/custom.xml");
    reveal_strlit("xl/sharedStrings.xml");
    reveal_strlit("xl/styles.xml");
    reveal_strlit("xl/theme/theme1.xml");
    reveal_strlit("xl/workbook.xml");
    assert("docProps/app.xml"@.len() == 16 && "docProps/app.xml"@[0] == 'd');
    assert("docProps/core.xml"@.len() == 17 && "docProps/core.xml"@[0] == 'd');
    assert("docProps/custom.xml"@.len() == 19 && "docProps/custom.xml"@[0] == 'd');
    assert("xl/sharedStrings.xml"@.len() == 20 && "xl/sharedStrings.xml"@[0] == 'x');
    assert("xl/styles.xml"@.len() == 13 && "xl/styles.xml"@[0] == 'x');
    assert("xl/theme/theme1.xml"@.len() == 19 && "xl/theme/theme1.xml"@[0] == 'x');
    assert("xl/workbook.xml"@.len() == 15 && "xl/workbook.xml"@[0] == 'x');
}

/// The parts of the worksheets are none of the fixed parts.
proof fn lemma_sheet_rank(path: Seq<char>, count: nat)
    requires
        is_sheet_path(path, count),
    ensures
        rank(path) == 6,
{
    let k = lemma_sheet_path_position(path, count);
    lemma_comments_path_shape(k);
    lemma_sheet_path_shape(k);
    reveal_strlit("docProps/app.xml");
    reveal_strlit("docProps/core.xml");
    reveal_strlit("docProps/custom.xml");
    reveal_strlit("xl/sharedStrings.xml");
    reveal_strlit("xl/styles.xml");
    reveal_strlit("xl/theme/theme1.xml");
    reveal_strlit("xl/workbook.xml");
    assert(path[0] == 'x');
    assert(path[3] == 'c' || (path[3] == 'w' && path[7] == 's'));
    assert("docProps/app.xml"@[0] == 'd');
    assert("docProps/core.xml"@[0] == 'd');
    assert("docProps/custom.xml"@[0] == 'd');
    assert("xl/sharedStrings.xml"@[3] == 's');
    assert("xl/styles.xml"@[3] == 's');
    assert("xl/theme/theme1.xml"@[3] == 't');
    assert("xl/workbook.xml"@[3] == 'w' && "xl/workbook.xml"@[7] == 'b');
}

/// Whether the places of the receipts of a list rise from each to the next,
/// and stay below `bound`.
spec fn rising(receipts: Seq<(Seq<char>, RType)>, bound: int) -> bool {
    &&& forall|i: int| 0 <= i < receipts.len() ==> rank((#[trigger] receipts[i]).0) < bound
    &&& forall|i: int, j: int|
        0 <= i < j < receipts.len() ==> rank((#[trigger] receipts[i]).0) < rank(
            (#[trigger] receipts[j]).0,
        )
}

/// A rising list stays rising with at most one part of a higher place behind
/// it.
proof fn lemma_rising_append(
    receipts: Seq<(Seq<char>, RType)>,
    path: Seq<char>,
    extra: Seq<(Seq<char>, RType)>,
)
    requires
        rising(receipts, rank(path)),
        extra.len() <= 1,
        extra.len() == 1 ==> extra[0].0 == path,
    ensures
        rising(receipts + extra, rank(path) + 1),
{
    let grown = receipts + extra;
    assert forall|i: int| 0 <= i < grown.len() implies rank((#[trigger] grown[i]).0) < rank(path)
        + 1 by {
        if i < receipts.len() {
            assert(grown[i] == receipts[i]);
        } else {
            assert(grown[i] == extra[0]);
        }
    }
    assert forall|i: int, j: int| 0 <= i < j < grown.len() implies rank((#[trigger] grown[i]).0)
        < rank((#[trigger] grown[j]).0) by {
        assert(grown[i] == receipts[i]);
        if j < receipts.len() {
            assert(grown[j] == receipts[j]);
        } else {
            assert(grown[j] == extra[0]);
        }
    }
}

/// The receipts of the fixed parts that come before the worksheets rise in
/// place, and stay below the place of the worksheets.
proof fn lemma_fixed_receipts_rise(wb: Workbook)
    ensures
        rising(doc_props_receipts(wb.doc_props) + leading_receipts(wb.xl), 6),
{
    lemma_fixed_ranks();
    let d = wb.doc_props;
    let xl = wb.xl;
    let e1 = optional_receipt("docProps/app.xml"@, RType::DocPropApp, d.app);
    let e2 = optional_receipt("docProps/core.xml"@, RType::DocPropCore, d.core);
    let e3 = optional_receipt("docProps/custom.xml"@, RType::DocPropCustom, d.custom);
    let e4 = optional_receipt("xl/sharedStrings.xml"@, RType::Sst, xl.sst);
    let e5 = seq![("xl/styles.xml"@, RType::Style)];
    let e6 = optional_receipt("xl/theme/theme1.xml"@, RType::Theme, xl.theme);
    let r0 = Seq::<(Seq<char>, RType)>::empty();
    lemma_rising_append(r0, "docProps/app.xml"@, e1);
    lemma_rising_append(r0 + e1, "docProps/core.xml"@, e2);
    lemma_rising_append(r0 + e1 + e2, "docProps/custom.xml"@, e3);
    lemma_rising_append(r0 + e1 + e2 + e3, "xl/sharedStrings.xml"@, e4);
    lemma_rising_append(r0 + e1 + e2 + e3 + e4, "xl/styles.xml"@, e5);
    lemma_rising_append(r0 + e1 + e2 + e3 + e4 + e5, "xl/theme/theme1.xml"@, e6);
    assert(r0 + e1 + e2 + e3 + e4 + e5 + e6 =~= doc_props_receipts(d) + leading_receipts(xl));
}

/// Every receipt of a package names a path that no other receipt of it
/// names.
pub proof fn lemma_receipt_paths_distinct(wb: Workbook)
    ensures
        distinct_paths(package_receipts(wb)),
{
    let fixed = doc_props_receipts(wb.doc_props) + leading_receipts(wb.xl);
    let order = sheet_order(wb.xl);
    let sheets = sheets_receipts(wb.xl.worksheets@, order);
    let last = seq![("xl/workbook.xml"@, RType::Workbook)];
    let all = package_receipts(wb);
    lemma_fixed_ranks();
    lemma_fixed_receipts_rise(wb);
    lemma_sheets_receipts(wb.xl.worksheets@, order);
    assert(all =~= fixed + sheets + last);
    assert forall|i: int| 0 <= i < all.len() implies rank((#[trigger] all[i]).0) == (if i
        < fixed.len() {
        rank(fixed[i].0)
    } else if i < fixed.len() + sheets.len() {
        6
    } else {
        7
    }) by {
        if i < fixed.len() {
            assert(all[i] == fixed[i]);
        } else if i < fixed.len() + sheets.len() {
            assert(all[i] == sheets[i - fixed.len()]);
            lemma_sheet_rank(sheets[i - fixed.len()].0, order.len());
        } else {
            assert(all[i] == last[i - fixed.len() - sheets.len()]);
        }
    }
    assert forall|i: int, j: int| 0 <= i < j < all.len() implies (#[trigger] all[i]).0 != (
    #[trigger] all[j]).0 by {
        if j < fixed.len() {
            assert(all[i] == fixed[i]);
            assert(all[j] == fixed[j]);
            assert(rank(fixed[i].0) < rank(fixed[j].0));
        } else if i < fixed.len() {
            assert(all[i] == fixed[i]);
            assert(rank(fixed[i].0) < 6);
        } else if j < fixed.len() + sheets.len() {
            assert(all[i] == sheets[i - fixed.len()]);
            assert(all[j] == sheets[j - fixed.len()]);
        } else {
            assert(rank(all[i].0) == 6);
            assert(rank(all[j].0) == 7);
        }
    }
}

/// The manifest of a package declares every part that a receipt names, under
/// the exact path of the receipt and with the content type of its kind, and
/// declares no path twice.
pub proof fn lemma_manifest_complete(wb: Workbook)
    ensures
        overrides_of(package_receipts(wb)).len() == package_receipts(wb).len(),
        forall|i: int|
            0 <= i < package_receipts(wb).len() ==> (#[trigger] overrides_of(
                package_receipts(wb),
            )[i]) == (package_receipts(wb)[i].0, content_type(package_receipts(wb)[i].1)),
        forall|i: int, j: int|
            0 <= i < j < package_receipts(wb).len() ==> (#[trigger] overrides_of(
                package_receipts(wb),
            )[i]).0 != (#[trigger] overrides_of(package_receipts(wb))[j]).0,
{
    lemma_receipt_paths_distinct(wb);
    let receipts = package_receipts(wb);
    assert forall|i: int, j: int| 0 <= i < j < receipts.len() implies (#[trigger] overrides_of(
        receipts,
    )[i]).0 != (#[trigger] overrides_of(receipts)[j]).0 by {
        assert(receipts[i].0 != receipts[j].0);
    }
}

} // verus!
