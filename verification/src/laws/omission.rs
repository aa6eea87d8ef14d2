//! What a package leaves out: no entry for document properties that the
//! document lacks, and none for shared strings that it lacks.

use crate::archive::directory_name;
use crate::content_types::overrides_of;
use crate::laws::manifest::{
    lemma_comments_path_shape, lemma_sheet_path_position, lemma_sheet_path_shape,
    lemma_sheets_receipts,
};
use crate::layout::{
    comments_path, dir_entry, doc_props_entries, doc_props_receipts, file_entry, part_entry,
    leading_entries, leading_receipts, optional_file, optional_receipt, package_entries,
    package_receipts, sheet_order, sheet_path, sheet_rels_path, sheets_entries,
    sheets_receipts, worksheet_entries, worksheet_relationships, xl_entries,
    xl_relationships,
};
use crate::model::{SheetEntry, Workbook, Xl};
use crate::relationships::relationships_text;
use crate::rtype::RType;
use vstd::prelude::*;

verus! {

/// Whether the name of every entry of a list meets `p`.
pub open spec fn names_satisfy(
    entries: Seq<(Seq<char>, Option<Seq<u8>>)>,
    p: spec_fn(Seq<char>) -> bool,
) -> bool {
    forall|i: int| 0 <= i < entries.len() ==> p((#[trigger] entries[i]).0)
}

/// What holds of the names of two lists holds of the names of both together.
pub proof fn lemma_names_concat(
    a: Seq<(Seq<char>, Option<Seq<u8>>)>,
    b: Seq<(Seq<char>, Option<Seq<u8>>)>,
    p: spec_fn(Seq<char>) -> bool,
)
    requires
        names_satisfy(a, p),
        names_satisfy(b, p),
    ensures
        names_satisfy(a + b, p),
{
    assert forall|i: int| 0 <= i < (a + b).len() implies p((#[trigger] (a + b)[i]).0) by {
        if i < a.len() {
            assert((a + b)[i] == a[i]);
        } else {
            assert((a + b)[i] == b[i - a.len()]);
        }
    }
}

/// Whether `p` holds of every name that the parts of a worksheet can have.
pub open spec fn holds_of_sheet_names(p: spec_fn(Seq<char>) -> bool) -> bool {
    forall|k: nat|
        p(#[trigger] comments_path(k)) && p(sheet_path(k)) && p(sheet_rels_path(k))
}

/// Whether `p` holds of every fixed name of a workbook section but that of
/// the shared strings.
pub open spec fn holds_of_fixed_names(p: spec_fn(Seq<char>) -> bool) -> bool {
    &&& p(directory_name("xl"@))
    &&& p("xl/styles.xml"@)
    &&& p(directory_name("xl/theme"@))
    &&& p("xl/theme/theme1.xml"@)
    &&& p(directory_name("xl/worksheets"@))
    &&& p(directory_name("xl/worksheets/_rels"@))
    &&& p("xl/workbook.xml"@)
    &&& p(directory_name("xl/_rels"@))
    &&& p("xl/_rels/workbook.xml.rels"@)
}

/// What holds of every name that the parts of a worksheet can have holds of
/// the names of the entries of the worksheets.
pub proof fn lemma_sheets_entry_names(
    sheets: Seq<SheetEntry>,
    order: Seq<int>,
    p: spec_fn(Seq<char>) -> bool,
)
    requires
        holds_of_sheet_names(p),
    ensures
        names_satisfy(sheets_entries(sheets, order), p),
    decreases order.len(),
{
    if order.len() > 0 {
        let n = order.len();
        let ws = sheets[order.last()].sheet;
        lemma_sheets_entry_names(sheets, order.drop_last(), p);
        let first = optional_file(comments_path(n), ws.comments);
        let rest = seq![
            part_entry(sheet_path(n), ws.worksheet_part@),
            file_entry(sheet_rels_path(n), relationships_text(worksheet_relationships(ws, n))),
        ];
        assert(p(comments_path(n)) && p(sheet_path(n)) && p(sheet_rels_path(n)));
        assert(names_satisfy(first, p));
        assert(names_satisfy(rest, p));
        lemma_names_concat(first, rest, p);
        lemma_names_concat(
            sheets_entries(sheets, order.drop_last()),
            worksheet_entries(ws, n),
            p,
        );
    }
}

/// What holds of every name that a workbook section can give holds of the
/// names of its entries. The name of the shared strings counts only where
/// the section has any.
proof fn lemma_xl_entry_names(xl: Xl, p: spec_fn(Seq<char>) -> bool)
    requires
        holds_of_fixed_names(p),
        holds_of_sheet_names(p),
        xl.sst is Some ==> p("xl/sharedStrings.xml"@),
    ensures
        names_satisfy(xl_entries(xl), p),
{
    let e1 = seq![dir_entry("xl"@)];
    let e2 = optional_file("xl/sharedStrings.xml"@, xl.sst);
    let e3 = seq![part_entry("xl/styles.xml"@, xl.styles->0@)];
    let e4 = match xl.theme {
        Some(text) => seq![dir_entry("xl/theme"@), part_entry("xl/theme/theme1.xml"@, text@)],
        None => Seq::empty(),
    };
    let e5 = seq![dir_entry("xl/worksheets"@), dir_entry("xl/worksheets/_rels"@)];
    let e6 = sheets_entries(xl.worksheets@, sheet_order(xl));
    let e7 = seq![
        part_entry("xl/workbook.xml"@, xl.workbook_part->0.xml@),
        dir_entry("xl/_rels"@),
        file_entry("xl/_rels/workbook.xml.rels"@, relationships_text(xl_relationships(xl))),
    ];
    lemma_sheets_entry_names(xl.worksheets@, sheet_order(xl), p);
    assert(names_satisfy(e1, p));
    assert(names_satisfy(e2, p));
    assert(names_satisfy(e3, p));
    assert(names_satisfy(e4, p));
    assert(names_satisfy(e5, p));
    assert(names_satisfy(e7, p));
    lemma_names_concat(e1, e2, p);
    lemma_names_concat(e1 + e2, e3, p);
    lemma_names_concat(e1 + e2 + e3, e4, p);
    lemma_names_concat(e1 + e2 + e3 + e4, e5, p);
    lemma_names_concat(e1 + e2 + e3 + e4 + e5, e6, p);
    lemma_names_concat(e1 + e2 + e3 + e4 + e5 + e6, e7, p);
    assert(xl_entries(xl) =~= e1 + e2 + e3 + e4 + e5 + e6 + e7);
}

/// Whether `name` begins with `c`.
pub open spec fn begins_with(name: Seq<char>, c: char) -> bool {
    name.len() > 0 && name[0] == c
}

/// Every name that a workbook section can give begins with `x`.
proof fn lemma_xl_names_begin_with_x()
    ensures
        holds_of_fixed_names(|n: Seq<char>| begins_with(n, 'x')),
        holds_of_sheet_names(|n: Seq<char>| begins_with(n, 'x')),
        begins_with("xl/sharedStrings.xml"@, 'x'),
{
    reveal_strlit("xl");
    reveal_strlit("xl/sharedStrings.xml");
    reveal_strlit("xl/styles.xml");
    reveal_strlit("xl/theme");
    reveal_strlit("xl/theme/theme1.xml");
    reveal_strlit("xl/worksheets");
    reveal_strlit("xl/worksheets/_rels");
    reveal_strlit("xl/workbook.xml");
    reveal_strlit("xl/_rels");
    reveal_strlit("xl/_rels/workbook.xml.rels");
    reveal_strlit("xl/worksheets/_rels/sheet");
    assert(begins_with(directory_name("xl"@), 'x'));
    assert(begins_with(directory_name("xl/theme"@), 'x'));
    assert(begins_with(directory_name("xl/worksheets"@), 'x'));
    assert(begins_with(directory_name("xl/worksheets/_rels"@), 'x'));
    assert(begins_with(directory_name("xl/_rels"@), 'x'));
    assert forall|k: nat|
        begins_with(#[trigger] comments_path(k), 'x') && begins_with(sheet_path(k), 'x')
            && begins_with(sheet_rels_path(k), 'x') by {
        lemma_comments_path_shape(k);
        lemma_sheet_path_shape(k);
        assert(sheet_rels_path(k)[0] == "xl/worksheets/_rels/sheet"@[0]);
    }
}

/// Whether `name` lies under the directory of the document properties.
pub open spec fn under_doc_props(name: Seq<char>) -> bool {
    "docProps"@.is_prefix_of(name)
}

/// The paths of the receipts that open a workbook section begin with `x`.
proof fn lemma_leading_receipts_begin_with_x(xl: Xl)
    ensures
        forall|i: int|
            0 <= i < leading_receipts(xl).len() ==> begins_with(
                (#[trigger] leading_receipts(xl)[i]).0,
                'x',
            ),
{
    reveal_strlit("xl/sharedStrings.xml");
    reveal_strlit("xl/styles.xml");
    reveal_strlit("xl/theme/theme1.xml");
    let e1 = optional_receipt("xl/sharedStrings.xml"@, RType::Sst, xl.sst);
    let e2 = seq![("xl/styles.xml"@, RType::Style)];
    let e3 = optional_receipt("xl/theme/theme1.xml"@, RType::Theme, xl.theme);
    let all = leading_receipts(xl);
    assert(all == e1 + e2 + e3);
    assert forall|i: int| 0 <= i < all.len() implies begins_with((#[trigger] all[i]).0, 'x') by {
        if i < e1.len() {
            assert(all[i] == e1[i]);
        } else if i < e1.len() + e2.len() {
            assert(all[i] == e2[i - e1.len()]);
        } else {
            assert(all[i] == e3[i - e1.len() - e2.len()]);
        }
    }
}

/// The package of a document without properties holds no entry under the
/// directory of the document properties, and its manifest declares no part
/// there.
pub proof fn lemma_no_doc_props(wb: Workbook)
    requires
        wb.doc_props.spec_is_empty(),
    ensures
        forall|i: int|
            0 <= i < package_entries(wb).len() ==> !under_doc_props(
                (#[trigger] package_entries(wb)[i]).0,
            ),
        forall|i: int|
            0 <= i < package_receipts(wb).len() ==> !under_doc_props(
                (#[trigger] overrides_of(package_receipts(wb))[i]).0,
            ),
{
    reveal_strlit("docProps");
    reveal_strlit("[Content_Types].xml");
    let p = |n: Seq<char>| begins_with(n, 'x');
    lemma_xl_names_begin_with_x();
    lemma_xl_entry_names(wb.xl, p);
    let entries = package_entries(wb);
    let xl = xl_entries(wb.xl);
    assert(doc_props_entries(wb.doc_props) =~= Seq::empty());
    assert forall|i: int| 0 <= i < entries.len() implies !under_doc_props(
        (#[trigger] entries[i]).0,
    ) by {
        if i < xl.len() {
            assert(entries[i] == xl[i]);
            assert(p(xl[i].0));
        } else {
            assert(entries[i].0 == "[Content_Types].xml"@);
        }
        if under_doc_props(entries[i].0) {
            assert(entries[i].0.subrange(0, 8)[0] == "docProps"@[0]);
        }
    }
    let receipts = package_receipts(wb);
    let order = sheet_order(wb.xl);
    let fixed = leading_receipts(wb.xl);
    let sheets = sheets_receipts(wb.xl.worksheets@, order);
    lemma_sheets_receipts(wb.xl.worksheets@, order);
    reveal_strlit("xl/workbook.xml");
    assert(doc_props_receipts(wb.doc_props) =~= Seq::empty());
    assert(receipts =~= fixed + sheets + seq![("xl/workbook.xml"@, RType::Workbook)]);
    lemma_leading_receipts_begin_with_x(wb.xl);
    assert forall|i: int| 0 <= i < receipts.len() implies !under_doc_props(
        (#[trigger] overrides_of(receipts)[i]).0,
    ) by {
        let path = receipts[i].0;
        assert(overrides_of(receipts)[i].0 == path);
        if i < fixed.len() {
            assert(receipts[i] == fixed[i]);
        } else if i < fixed.len() + sheets.len() {
            assert(receipts[i] == sheets[i - fixed.len()]);
            let k = lemma_sheet_path_position(sheets[i - fixed.len()].0, order.len());
            lemma_comments_path_shape(k);
            lemma_sheet_path_shape(k);
        } else {
            assert(path == "xl/workbook.xml"@);
        }
        assert(begins_with(path, 'x'));
        if under_doc_props(path) {
            assert(path.subrange(0, 8)[0] == "docProps"@[0]);
        }
    }
}

/// No name that a workbook section can give, but the one, is that of the
/// shared strings.
proof fn lemma_xl_names_are_not_shared_strings()
    ensures
        holds_of_fixed_names(|n: Seq<char>| n != "xl/sharedStrings.xml"@),
        holds_of_sheet_names(|n: Seq<char>| n != "xl/sharedStrings.xml"@),
{
    reveal_strlit("xl");
    reveal_strlit("xl/sharedStrings.xml");
    reveal_strlit("xl/styles.xml");
    reveal_strlit("xl/theme");
    reveal_strlit("xl/theme/theme1.xml");
    reveal_strlit("xl/worksheets");
    reveal_strlit("xl/worksheets/_rels");
    reveal_strlit("xl/workbook.xml");
    reveal_strlit("xl/_rels");
    reveal_strlit("xl/_rels/workbook.xml.rels");
    reveal_strlit("xl/worksheets/_rels/sheet");
    let sst = "xl/sharedStrings.xml"@;
    assert(sst.len() == 20 && sst[3] == 's');
    assert(directory_name("xl"@).len() == 3);
    assert("xl/styles.xml"@.len() == 13);
    assert(directory_name("xl/theme"@).len() == 9);
    assert("xl/theme/theme1.xml"@.len() == 19);
    assert(directory_name("xl/worksheets"@).len() == 14);
    assert(directory_name("xl/worksheets/_rels"@)[3] == 'w');
    assert("xl/workbook.xml"@.len() == 15);
    assert(directory_name("xl/_rels"@).len() == 9);
    assert("xl/_rels/workbook.xml.rels"@.len() == 26);
    assert forall|k: nat|
        #[trigger] comments_path(k) != sst && sheet_path(k) != sst && sheet_rels_path(k)
            != sst by {
        lemma_comments_path_shape(k);
        lemma_sheet_path_shape(k);
        assert(sheet_rels_path(k)[3] == "xl/worksheets/_rels/sheet"@[3]);
    }
}

/// A shared-string table that the document holds is staged, whatever it
/// holds, and be it nothing; a document without one gets no entry under the
/// name of the shared strings.
pub proof fn lemma_shared_strings_policy(wb: Workbook)
    ensures
        wb.xl.sst matches Some(text) ==> {
            let at = doc_props_entries(wb.doc_props).len() as int + 1;
            &&& at < package_entries(wb).len()
            &&& package_entries(wb)[at] == part_entry("xl/sharedStrings.xml"@, text@)
        },
        wb.xl.sst is None ==> forall|i: int|
            0 <= i < package_entries(wb).len() ==> (#[trigger] package_entries(wb)[i]).0
                != "xl/sharedStrings.xml"@,
{
    let docs = doc_props_entries(wb.doc_props);
    let xl = xl_entries(wb.xl);
    let entries = package_entries(wb);
    match wb.xl.sst {
        Some(text) => {
            let e2 = optional_file("xl/sharedStrings.xml"@, wb.xl.sst);
            assert(leading_entries(wb.xl).len() >= 2);
            assert(leading_entries(wb.xl)[1] == e2[0]);
            assert(xl[1] == leading_entries(wb.xl)[1]);
            assert(entries[docs.len() as int + 1] == xl[1]);
        },
        None => {
            reveal_strlit("xl/sharedStrings.xml");
            reveal_strlit("docProps");
            reveal_strlit("docProps/app.xml");
            reveal_strlit("docProps/core.xml");
            reveal_strlit("docProps/custom.xml");
            reveal_strlit("[Content_Types].xml");
            let p = |n: Seq<char>| n != "xl/sharedStrings.xml"@;
            lemma_xl_names_are_not_shared_strings();
            lemma_xl_entry_names(wb.xl, p);
            assert(names_satisfy(docs, |n: Seq<char>| begins_with(n, 'd'))) by {
                let d = wb.doc_props;
                let q = |n: Seq<char>| begins_with(n, 'd');
                if !d.spec_is_empty() {
                    let e1 = seq![dir_entry("docProps"@)];
                    let e2 = optional_file("docProps/app.xml"@, d.app);
                    let e3 = optional_file("docProps/core.xml"@, d.core);
                    let e4 = optional_file("docProps/custom.xml"@, d.custom);
                    assert(begins_with(directory_name("docProps"@), 'd'));
                    assert(names_satisfy(e1, q));
                    assert(names_satisfy(e2, q));
                    assert(names_satisfy(e3, q));
                    assert(names_satisfy(e4, q));
                    lemma_names_concat(e1, e2, q);
                    lemma_names_concat(e1 + e2, e3, q);
                    lemma_names_concat(e1 + e2 + e3, e4, q);
                }
            }
            assert forall|i: int| 0 <= i < entries.len() implies (#[trigger] entries[i]).0
                != "xl/sharedStrings.xml"@ by {
                if i < docs.len() {
                    assert(entries[i] == docs[i]);
                    assert(begins_with(docs[i].0, 'd'));
                } else if i < docs.len() + xl.len() {
                    assert(entries[i] == xl[i - docs.len()]);
                    assert(p(xl[i - docs.len()].0));
                } else {
                    assert(entries[i].0 == "[Content_Types].xml"@);
                }
            }
        },
    }
}

} // verus!
