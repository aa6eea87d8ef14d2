//! Every relationship of a package leads to a part that the package holds.

use crate::decimal::decimal;
use crate::layout::{
    comments_path, comments_target, leading_receipts, leading_targets, optional_receipt,
    sheet_order, sheet_path, sheet_target, sheet_targets, sheets_receipts, workbook_targets,
    worksheet_receipts, worksheet_relationships, xl_receipts, xl_relationships,
};
use crate::model::{SheetEntry, Worksheet, Xl};
use crate::relationships::Relationship;
use crate::rtype::{relationship_type, RType};
use vstd::prelude::*;

verus! {

/// The path that a target stands for, seen from a part in the directory
/// `dir`, which lies in the directory `above`: a target that begins with
/// `../` is taken from `above`, every other from `dir`.
pub open spec fn resolved(dir: Seq<char>, above: Seq<char>, target: Seq<char>) -> Seq<char> {
    if "../"@.is_prefix_of(target) {
        above + target.skip(3)
    } else {
        dir + target
    }
}

/// Whether `receipts` hold the part that `r` leads to, and hold it as a
/// part of the kind that `r` names.
pub open spec fn leads_to_part(
    receipts: Seq<(Seq<char>, RType)>,
    dir: Seq<char>,
    above: Seq<char>,
    r: Relationship,
) -> bool {
    exists|j: int|
        0 <= j < receipts.len() && (#[trigger] receipts[j]).0 == resolved(dir, above, r.target)
            && r.ty == relationship_type(receipts[j].1)
}

/// The paths of the parts of a worksheet, put together from the directory of
/// the workbook section and the targets.
proof fn lemma_sheet_targets_resolve(k: nat)
    ensures
        resolved("xl/"@, Seq::empty(), sheet_target(k)) == sheet_path(k),
        resolved("xl/worksheets/"@, "xl/"@, comments_target(k)) == comments_path(k),
{
    reveal_strlit("../");
    reveal_strlit("xl/");
    reveal_strlit("xl/worksheets/");
    reveal_strlit("worksheets/sheet");
    reveal_strlit("xl/worksheets/sheet");
    reveal_strlit("../comments");
    reveal_strlit("xl/comments");
    let t = sheet_target(k);
    assert(t[0] == "worksheets/sheet"@[0]);
    if "../"@.is_prefix_of(t) {
        assert(t.subrange(0, 3)[0] == "../"@[0]);
    }
    assert("xl/"@ + "worksheets/sheet"@ =~= "xl/worksheets/sheet"@);
    assert("xl/"@ + t =~= sheet_path(k));
    let c = comments_target(k);
    assert("../"@ =~= c.subrange(0, 3)) by {
        assert(c[0] == "../comments"@[0]);
        assert(c[1] == "../comments"@[1]);
        assert(c[2] == "../comments"@[2]);
    }
    assert("../comments"@.skip(3) =~= "comments"@) by {
        reveal_strlit("comments");
    }
    assert("xl/"@ + "comments"@ =~= "xl/comments"@) by {
        reveal_strlit("comments");
    }
    assert(c.skip(3) =~= "../comments"@.skip(3) + decimal(k) + ".xml"@);
    assert("xl/"@ + c.skip(3) =~= comments_path(k));
}

/// The paths of the fixed parts of a workbook section, put together from its
/// directory and the targets.
proof fn lemma_fixed_targets_resolve()
    ensures
        resolved("xl/"@, Seq::empty(), "sharedStrings.xml"@) == "xl/sharedStrings.xml"@,
        resolved("xl/"@, Seq::empty(), "styles.xml"@) == "xl/styles.xml"@,
        resolved("xl/"@, Seq::empty(), "theme/theme1.xml"@) == "xl/theme/theme1.xml"@,
{
    reveal_strlit("../");
    reveal_strlit("xl/");
    reveal_strlit("sharedStrings.xml");
    reveal_strlit("styles.xml");
    reveal_strlit("theme/theme1.xml");
    reveal_strlit("xl/sharedStrings.xml");
    reveal_strlit("xl/styles.xml");
    reveal_strlit("xl/theme/theme1.xml");
    if "../"@.is_prefix_of("sharedStrings.xml"@) {
        assert("sharedStrings.xml"@.subrange(0, 3)[0] == "../"@[0]);
    }
    if "../"@.is_prefix_of("styles.xml"@) {
        assert("styles.xml"@.subrange(0, 3)[0] == "../"@[0]);
    }
    if "../"@.is_prefix_of("theme/theme1.xml"@) {
        assert("theme/theme1.xml"@.subrange(0, 3)[0] == "../"@[0]);
    }
    assert("xl/"@ + "sharedStrings.xml"@ =~= "xl/sharedStrings.xml"@);
    assert("xl/"@ + "styles.xml"@ =~= "xl/styles.xml"@);
    assert("xl/"@ + "theme/theme1.xml"@ =~= "xl/theme/theme1.xml"@);
}

/// The receipts of the worksheets hold a receipt for every worksheet that is
/// written.
proof fn lemma_sheet_receipt_exists(sheets: Seq<SheetEntry>, order: Seq<int>, k: nat)
    requires
        1 <= k <= order.len(),
    ensures
        exists|j: int|
            0 <= j < sheets_receipts(sheets, order).len() && #[trigger] sheets_receipts(
                sheets,
                order,
            )[j] == (sheet_path(k), RType::Worksheet),
    decreases order.len(),
{
    let all = sheets_receipts(sheets, order);
    let before = sheets_receipts(sheets, order.drop_last());
    let own = worksheet_receipts(sheets[order.last()].sheet, order.len());
    assert(all == before + own);
    if k < order.len() {
        lemma_sheet_receipt_exists(sheets, order.drop_last(), k);
        let j = choose|j: int|
            0 <= j < before.len() && #[trigger] before[j] == (sheet_path(k), RType::Worksheet);
        assert(all[j] == before[j]);
    } else {
        let j = all.len() - 1;
        assert(all[j] == own[own.len() - 1]);
        assert(all[j] == (sheet_path(k), RType::Worksheet));
    }
}

/// Every relationship of the workbook leads to a part of the workbook
/// section, of the kind that the relationship names.
pub proof fn lemma_workbook_relationships_resolve(xl: Xl, i: int)
    requires
        0 <= i < xl_relationships(xl).len(),
    ensures
        leads_to_part(xl_receipts(xl), "xl/"@, Seq::empty(), xl_relationships(xl)[i]),
{
    lemma_fixed_targets_resolve();
    let order = sheet_order(xl);
    let leading = leading_targets(xl);
    let targets = workbook_targets(xl, order.len());
    let receipts = xl_receipts(xl);
    let first = leading_receipts(xl);
    let sheets = sheets_receipts(xl.worksheets@, order);
    let r = xl_relationships(xl)[i];
    assert(targets == leading + sheet_targets(order.len()));
    assert(receipts =~= first + sheets + seq![("xl/workbook.xml"@, RType::Workbook)]);
    if i < leading.len() {
        assert(targets[i] == leading[i]);
        let a = optional_receipt("xl/sharedStrings.xml"@, RType::Sst, xl.sst);
        let b = seq![("xl/styles.xml"@, RType::Style)];
        let c = optional_receipt("xl/theme/theme1.xml"@, RType::Theme, xl.theme);
        assert(first == a + b + c);
        assert(first.len() == leading.len());
        assert(receipts[i] == first[i]);
        if i < a.len() {
            assert(first[i] == a[i]);
        } else if i < a.len() + b.len() {
            assert(first[i] == b[i - a.len()]);
        } else {
            assert(first[i] == c[i - a.len() - b.len()]);
        }
        assert(receipts[i].0 == resolved("xl/"@, Seq::empty(), r.target));
    } else {
        let k = (i - leading.len() + 1) as nat;
        assert(targets[i] == sheet_targets(order.len())[i - leading.len()]);
        assert(r.target == sheet_target(k));
        lemma_sheet_targets_resolve(k);
        lemma_sheet_receipt_exists(xl.worksheets@, order, k);
        let j = choose|j: int|
            0 <= j < sheets.len() && #[trigger] sheets[j] == (sheet_path(k), RType::Worksheet);
        assert(receipts[first.len() + j] == sheets[j]);
    }
}

/// Every relationship of a worksheet leads to a part of that worksheet, of
/// the kind that the relationship names.
pub proof fn lemma_worksheet_relationships_resolve(ws: Worksheet, idx: nat, i: int)
    requires
        0 <= i < worksheet_relationships(ws, idx).len(),
    ensures
        leads_to_part(
            worksheet_receipts(ws, idx),
            "xl/worksheets/"@,
            "xl/"@,
            worksheet_relationships(ws, idx)[i],
        ),
{
    lemma_sheet_targets_resolve(idx);
    let receipts = worksheet_receipts(ws, idx);
    let first = optional_receipt(comments_path(idx), RType::Comments, ws.comments);
    assert(receipts[0] == first[0]);
}

} // verus!
