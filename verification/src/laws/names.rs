//! No two entries of a package lie at the same name.

use crate::archive::directory_name;
use crate::decimal::{decimal, lemma_decimal_injective};
use crate::laws::manifest::{
    lemma_affix_cancel, lemma_comments_path_shape, lemma_sheet_path_shape,
    lemma_sheet_paths_differ,
};
use crate::layout::{
    comments_path, dir_entry, doc_props_entries, file_entry, part_entry, leading_entries, manifest_entry,
    optional_file, package_entries, package_receipts, sheet_order, sheet_path,
    sheet_rels_path, sheets_entries, worksheet_entries, worksheet_relationships,
    xl_relationships,
};
use crate::model::{SheetEntry, Workbook, Worksheet};
use crate::relationships::relationships_text;
use vstd::prelude::*;

verus! {

/// Whether no two entries of a list have the same name.
pub open spec fn distinct_names(entries: Seq<(Seq<char>, Option<Seq<u8>>)>) -> bool {
    forall|i: int, j: int|
        0 <= i < j < entries.len() ==> (#[trigger] entries[i]).0 != (#[trigger] entries[j]).0
}

/// Whether `name` is that of the comments, of the body or of the
/// relationships of the worksheet at position `k`, one of the first `count`.
pub open spec fn is_sheet_name_at(name: Seq<char>, count: nat, k: nat) -> bool {
    1 <= k <= count && (name == comments_path(k) || name == sheet_path(k) || name
        == sheet_rels_path(k))
}

/// Whether `name` lies among the entries of the first `count` worksheets.
pub open spec fn is_sheet_name(name: Seq<char>, count: nat) -> bool {
    exists|k: nat| is_sheet_name_at(name, count, k)
}

/// The position of the worksheet that a name among the entries of the
/// worksheets belongs to.
pub proof fn lemma_sheet_name_position(name: Seq<char>, count: nat) -> (k: nat)
    requires
        is_sheet_name(name, count),
    ensures
        is_sheet_name_at(name, count, k),
{
    choose|k: nat| is_sheet_name_at(name, count, k)
}

/// The characters that tell the name of a worksheet's relationships from
/// every other name.
pub proof fn lemma_sheet_rels_path_shape(k: nat)
    ensures
        sheet_rels_path(k).len() > 25,
        sheet_rels_path(k)[0] == 'x',
        sheet_rels_path(k)[3] == 'w',
        sheet_rels_path(k)[7] == 's',
        sheet_rels_path(k)[14] == '_',
{
    reveal_strlit("xl/worksheets/_rels/sheet");
    let p = sheet_rels_path(k);
    assert(p[0] == "xl/worksheets/_rels/sheet"@[0]);
    assert(p[3] == "xl/worksheets/_rels/sheet"@[3]);
    assert(p[7] == "xl/worksheets/_rels/sheet"@[7]);
    assert(p[14] == "xl/worksheets/_rels/sheet"@[14]);
}

/// The fifteenth character of the name of a worksheet.
proof fn lemma_sheet_path_fifteenth(k: nat)
    ensures
        sheet_path(k).len() > 19,
        sheet_path(k)[14] == 's',
{
    reveal_strlit("xl/worksheets/sheet");
    assert(sheet_path(k)[14] == "xl/worksheets/sheet"@[14]);
}

/// Two entries of the worksheets that lie at one name are the same entry of
/// the same worksheet.
proof fn lemma_sheet_names_differ(a: nat, b: nat)
    ensures
        comments_path(a) != sheet_path(b),
        comments_path(a) != sheet_rels_path(b),
        sheet_path(a) != sheet_rels_path(b),
        a != b ==> comments_path(a) != comments_path(b),
        a != b ==> sheet_path(a) != sheet_path(b),
        a != b ==> sheet_rels_path(a) != sheet_rels_path(b),
{
    lemma_sheet_paths_differ(a, b);
    lemma_comments_path_shape(a);
    lemma_sheet_path_fifteenth(a);
    lemma_sheet_rels_path_shape(b);
    if sheet_rels_path(a) == sheet_rels_path(b) {
        lemma_affix_cancel("xl/worksheets/_rels/sheet"@, decimal(a), decimal(b), ".xml.rels"@);
        lemma_decimal_injective(a, b);
    }
}

/// The entries of one worksheet lie at names of their own.
proof fn lemma_worksheet_entry_names(ws: Worksheet, idx: nat)
    ensures
        distinct_names(worksheet_entries(ws, idx)),
        forall|i: int|
            0 <= i < worksheet_entries(ws, idx).len() ==> {
                ||| (#[trigger] worksheet_entries(ws, idx)[i]).0 == comments_path(idx)
                ||| worksheet_entries(ws, idx)[i].0 == sheet_path(idx)
                ||| worksheet_entries(ws, idx)[i].0 == sheet_rels_path(idx)
            },
{
    lemma_sheet_names_differ(idx, idx);
    let own = worksheet_entries(ws, idx);
    let first = optional_file(comments_path(idx), ws.comments);
    let rest = seq![
        part_entry(sheet_path(idx), ws.worksheet_part@),
        file_entry(sheet_rels_path(idx), relationships_text(worksheet_relationships(ws, idx))),
    ];
    assert(own == first + rest);
    assert forall|i: int| 0 <= i < own.len() implies (#[trigger] own[i]).0 == (if i
        < first.len() {
        comments_path(idx)
    } else if i == first.len() {
        sheet_path(idx)
    } else {
        sheet_rels_path(idx)
    }) by {
        if i < first.len() {
            assert(own[i] == first[i]);
        } else {
            assert(own[i] == rest[i - first.len()]);
        }
    }
}

/// The entries of the worksheets lie at names of their own, and every one
/// of the names belongs to a worksheet that is written.
pub proof fn lemma_sheets_entry_names_distinct(sheets: Seq<SheetEntry>, order: Seq<int>)
    ensures
        distinct_names(sheets_entries(sheets, order)),
        forall|i: int|
            0 <= i < sheets_entries(sheets, order).len() ==> is_sheet_name(
                (#[trigger] sheets_entries(sheets, order)[i]).0,
                order.len(),
            ),
    decreases order.len(),
{
    if order.len() > 0 {
        let n = order.len();
        let before = sheets_entries(sheets, order.drop_last());
        let ws = sheets[order.last()].sheet;
        let own = worksheet_entries(ws, n);
        let all = sheets_entries(sheets, order);
        lemma_sheets_entry_names_distinct(sheets, order.drop_last());
        lemma_worksheet_entry_names(ws, n);
        assert(all == before + own);
        assert forall|i: int| 0 <= i < all.len() implies is_sheet_name(
            (#[trigger] all[i]).0,
            n,
        ) by {
            if i < before.len() {
                assert(all[i] == before[i]);
                let k = lemma_sheet_name_position(before[i].0, (n - 1) as nat);
                assert(is_sheet_name_at(all[i].0, n, k));
            } else {
                assert(all[i] == own[i - before.len()]);
                assert(is_sheet_name_at(all[i].0, n, n));
            }
        }
        assert forall|i: int, j: int| 0 <= i < j < all.len() implies (#[trigger] all[i]).0 != (
        #[trigger] all[j]).0 by {
            if j < before.len() {
                assert(all[i] == before[i]);
                assert(all[j] == before[j]);
            } else if i < before.len() {
                assert(all[i] == before[i]);
                assert(all[j] == own[j - before.len()]);
                let k = lemma_sheet_name_position(before[i].0, (n - 1) as nat);
                lemma_sheet_names_differ(k, n);
                lemma_sheet_names_differ(n, k);
                let theirs = own[j - before.len()].0;
                assert(theirs == comments_path(n) || theirs == sheet_path(n) || theirs
                    == sheet_rels_path(n));
            } else {
                assert(all[i] == own[i - before.len()]);
                assert(all[j] == own[j - before.len()]);
            }
        }
    }
}

/// The place of a name among the entries of a package: the fixed entries in
/// the order of staging, with the entries of the worksheets, which share a
/// place, between the directories of the worksheets and the descriptor.
pub open spec fn place(name: Seq<char>) -> int {
    if name == directory_name("docProps"@) {
        0
    } else if name == "docProps/app.xml"@ {
        1
    } else if name == "docProps/core.xml"@ {
        2
    } else if name == "docProps/custom.xml"@ {
        3
    } else if name == directory_name("xl"@) {
        4
    } else if name == "xl/sharedStrings.xml"@ {
        5
    } else if name == "xl/styles.xml"@ {
        6
    } else if name == directory_name("xl/theme"@) {
        7
    } else if name == "xl/theme/theme1.xml"@ {
        8
    } else if name == directory_name("xl/worksheets"@) {
        9
    } else if name == directory_name("xl/worksheets/_rels"@) {
        10
    } else if name == "xl/workbook.xml"@ {
        12
    } else if name == directory_name("xl/_rels"@) {
        13
    } else if name == "xl/_rels/workbook.xml.rels"@ {
        14
    } else if name == "[Content_Types].xml"@ {
        15
    } else {
        11
    }
}

/// What tells the fixed names apart: the length, the first character and the
/// fourth.
pub open spec fn has_marks(name: Seq<char>, len: nat, first: char, fourth: char) -> bool {
    name.len() == len && name[0] == first && (len > 3 ==> name[3] == fourth)
}

/// The marks of every fixed name.
proof fn lemma_fixed_name_marks()
    ensures
        has_marks(directory_name("docProps"@), 9, 'd', 'P'),
        has_marks("docProps/app.xml"@, 16, 'd', 'P'),
        has_marks("docProps/core.xml"@, 17, 'd', 'P'),
        has_marks("docProps/custom.xml"@, 19, 'd', 'P'),
        has_marks(directory_name("xl"@), 3, 'x', ' '),
        has_marks("xl/sharedStrings.xml"@, 20, 'x', 's'),
        has_marks("xl/styles.xml"@, 13, 'x', 's'),
        has_marks(directory_name("xl/theme"@), 9, 'x', 't'),
        has_marks("xl/theme/theme1.xml"@, 19, 'x', 't'),
        has_marks(directory_name("xl/worksheets"@), 14, 'x', 'w'),
        has_marks(directory_name("xl/worksheets/_rels"@), 20, 'x', 'w'),
        has_marks("xl/workbook.xml"@, 15, 'x', 'w'),
        has_marks(directory_name("xl/_rels"@), 9, 'x', '_'),
        has_marks("xl/_rels/workbook.xml.rels"@, 26, 'x', '_'),
        has_marks("[Content_Types].xml"@, 19, '[', 'n'),
        "xl/workbook.xml"@[7] == 'b',
        directory_name("xl/worksheets/_rels"@)[14] == '_',
{
    reveal_strlit("docProps");
    reveal_strlit("docProps/app.xml");
    reveal_strlit("docProps/core.xml");
    reveal_strlit("docProps/custom.xml");
    reveal_strlit("xl");
    reveal_strlit("xl/sharedStrings.xml");
    reveal_strlit("xl/styles.xml");
    reveal_strlit("xl/theme");
    reveal_strlit("xl/theme/theme1.xml");
    reveal_strlit("xl/worksheets");
    reveal_strlit("xl/worksheets/_rels");
    reveal_strlit("xl/workbook.xml");
    reveal_strlit("xl/_rels");
    reveal_strlit("xl/_rels/workbook.xml.rels");
    reveal_strlit("[Content_Types].xml");
}

/// The place of every fixed name.
proof fn lemma_fixed_places()
    ensures
        place(directory_name("docProps"@)) == 0,
        place("docProps/app.xml"@) == 1,
        place("docProps/core.xml"@) == 2,
        place("docProps/custom.xml"@) == 3,
        place(directory_name("xl"@)) == 4,
        place("xl/sharedStrings.xml"@) == 5,
        place("xl/styles.xml"@) == 6,
        place(directory_name("xl/theme"@)) == 7,
        place("xl/theme/theme1.xml"@) == 8,
        place(directory_name("xl/worksheets"@)) == 9,
        place(directory_name("xl/worksheets/_rels"@)) == 10,
        place("xl/workbook.xml"@) == 12,
        place(directory_name("xl/_rels"@)) == 13,
        place("xl/_rels/workbook.xml.rels"@) == 14,
        place("[Content_Types].xml"@) == 15,
{
    lemma_fixed_name_marks();
}

/// The entries of the worksheets lie at none of the fixed names.
proof fn lemma_sheet_place(name: Seq<char>, count: nat)
    requires
        is_sheet_name(name, count),
    ensures
        place(name) == 11,
{
    let k = lemma_sheet_name_position(name, count);
    lemma_fixed_name_marks();
    lemma_comments_path_shape(k);
    lemma_sheet_path_shape(k);
    lemma_sheet_path_fifteenth(k);
    lemma_sheet_rels_path_shape(k);
    assert(name[0] == 'x');
    assert(name[3] == 'c' || (name[3] == 'w' && name[7] == 's'));
    assert(name.len() > 11);
    if name == sheet_path(k) {
        assert(name[14] == 's');
    } else if name == sheet_rels_path(k) {
        assert(name.len() > 25);
    }
}

/// Whether the places of the entries of a list rise from each to the next,
/// and stay below `bound`.
spec fn rising(entries: Seq<(Seq<char>, Option<Seq<u8>>)>, bound: int) -> bool {
    &&& forall|i: int| 0 <= i < entries.len() ==> place((#[trigger] entries[i]).0) < bound
    &&& forall|i: int, j: int|
        0 <= i < j < entries.len() ==> place((#[trigger] entries[i]).0) < place(
            (#[trigger] entries[j]).0,
        )
}

/// A rising list stays rising with at most one entry of a higher place
/// behind it.
proof fn lemma_rising_append(
    entries: Seq<(Seq<char>, Option<Seq<u8>>)>,
    name: Seq<char>,
    extra: Seq<(Seq<char>, Option<Seq<u8>>)>,
)
    requires
        rising(entries, place(name)),
        extra.len() <= 1,
        extra.len() == 1 ==> extra[0].0 == name,
    ensures
        rising(entries + extra, place(name) + 1),
{
    let grown = entries + extra;
    assert forall|i: int| 0 <= i < grown.len() implies place((#[trigger] grown[i]).0) < place(
        name,
    ) + 1 by {
        if i < entries.len() {
            assert(grown[i] == entries[i]);
        } else {
            assert(grown[i] == extra[0]);
        }
    }
    assert forall|i: int, j: int| 0 <= i < j < grown.len() implies place(
        (#[trigger] grown[i]).0,
    ) < place((#[trigger] grown[j]).0) by {
        assert(grown[i] == entries[i]);
        if j < entries.len() {
            assert(grown[j] == entries[j]);
        } else {
            assert(grown[j] == extra[0]);
        }
    }
}

/// A rising list is rising below every higher bound.
proof fn lemma_rising_below(entries: Seq<(Seq<char>, Option<Seq<u8>>)>, low: int, high: int)
    requires
        rising(entries, low),
        low <= high,
    ensures
        rising(entries, high),
{
}

/// The entries that come before the worksheets rise in place, and stay
/// below the place of the worksheets.
proof fn lemma_opening_rises(wb: Workbook)
    ensures
        rising(doc_props_entries(wb.doc_props) + leading_entries(wb.xl), 11),
{
    lemma_fixed_places();
    let d = wb.doc_props;
    let xl = wb.xl;
    let none = Seq::<(Seq<char>, Option<Seq<u8>>)>::empty();
    let docs = doc_props_entries(d);
    assert(rising(docs, 4)) by {
        if !d.spec_is_empty() {
            let e0 = seq![dir_entry("docProps"@)];
            let e1 = optional_file("docProps/app.xml"@, d.app);
            let e2 = optional_file("docProps/core.xml"@, d.core);
            let e3 = optional_file("docProps/custom.xml"@, d.custom);
            lemma_rising_append(none, directory_name("docProps"@), e0);
            lemma_rising_append(none + e0, "docProps/app.xml"@, e1);
            lemma_rising_append(none + e0 + e1, "docProps/core.xml"@, e2);
            lemma_rising_append(none + e0 + e1 + e2, "docProps/custom.xml"@, e3);
            assert(none + e0 + e1 + e2 + e3 =~= docs);
        }
    }
    let x0 = seq![dir_entry("xl"@)];
    let x1 = optional_file("xl/sharedStrings.xml"@, xl.sst);
    let x2 = seq![part_entry("xl/styles.xml"@, xl.styles->0@)];
    let x3 = match xl.theme {
        Some(text) => seq![dir_entry("xl/theme"@)],
        None => Seq::empty(),
    };
    let x4 = match xl.theme {
        Some(text) => seq![part_entry("xl/theme/theme1.xml"@, text@)],
        None => Seq::empty(),
    };
    let x5 = seq![dir_entry("xl/worksheets"@)];
    let x6 = seq![dir_entry("xl/worksheets/_rels"@)];
    lemma_rising_append(docs, directory_name("xl"@), x0);
    lemma_rising_append(docs + x0, "xl/sharedStrings.xml"@, x1);
    lemma_rising_append(docs + x0 + x1, "xl/styles.xml"@, x2);
    lemma_rising_append(docs + x0 + x1 + x2, directory_name("xl/theme"@), x3);
    lemma_rising_append(docs + x0 + x1 + x2 + x3, "xl/theme/theme1.xml"@, x4);
    lemma_rising_below(docs + x0 + x1 + x2 + x3 + x4, 9, 9);
    lemma_rising_append(docs + x0 + x1 + x2 + x3 + x4, directory_name("xl/worksheets"@), x5);
    lemma_rising_append(
        docs + x0 + x1 + x2 + x3 + x4 + x5,
        directory_name("xl/worksheets/_rels"@),
        x6,
    );
    assert(docs + x0 + x1 + x2 + x3 + x4 + x5 + x6 =~= docs + leading_entries(xl));
}

/// No two entries of a package lie at the same name.
pub proof fn lemma_entry_names_distinct(wb: Workbook)
    ensures
        distinct_names(package_entries(wb)),
{
    let xl = wb.xl;
    let opening = doc_props_entries(wb.doc_props) + leading_entries(xl);
    let order = sheet_order(xl);
    let sheets = sheets_entries(xl.worksheets@, order);
    let closing = seq![
        part_entry("xl/workbook.xml"@, xl.workbook_part->0.xml@),
        dir_entry("xl/_rels"@),
        file_entry("xl/_rels/workbook.xml.rels"@, relationships_text(xl_relationships(xl))),
        manifest_entry(package_receipts(wb)),
    ];
    let all = package_entries(wb);
    lemma_fixed_places();
    lemma_opening_rises(wb);
    lemma_sheets_entry_names_distinct(xl.worksheets@, order);
    assert(all =~= opening + sheets + closing);
    assert forall|i: int| 0 <= i < all.len() implies place((#[trigger] all[i]).0) == (if i
        < opening.len() {
        place(opening[i].0)
    } else if i < opening.len() + sheets.len() {
        11
    } else {
        12 + (i - opening.len() - sheets.len())
    }) by {
        if i < opening.len() {
            assert(all[i] == opening[i]);
        } else if i < opening.len() + sheets.len() {
            assert(all[i] == sheets[i - opening.len()]);
            lemma_sheet_place(sheets[i - opening.len()].0, order.len());
        } else {
            assert(all[i] == closing[i - opening.len() - sheets.len()]);
        }
    }
    assert forall|i: int, j: int| 0 <= i < j < all.len() implies (#[trigger] all[i]).0 != (
    #[trigger] all[j]).0 by {
        if j < opening.len() {
            assert(all[i] == opening[i]);
            assert(all[j] == opening[j]);
            assert(place(opening[i].0) < place(opening[j].0));
        } else if i < opening.len() {
            assert(all[i] == opening[i]);
            assert(place(opening[i].0) < 11);
        } else if j < opening.len() + sheets.len() {
            assert(all[i] == sheets[i - opening.len()]);
            assert(all[j] == sheets[j - opening.len()]);
        } else {
            assert(place(all[i].0) < place(all[j].0));
        }
    }
}

} // verus!
