//! Every directory of a package is staged before what lies beneath it.

use crate::archive::directory_name;
use crate::decimal::{decimal, is_digit, lemma_decimal_digits};
use crate::laws::omission::lemma_sheets_entry_names;
use crate::layout::{
    comments_path, dir_entry, doc_props_entries, file_entry, part_entry, leading_entries, manifest_entry,
    optional_file, package_entries, package_receipts, sheet_order, sheet_path,
    sheet_rels_path, sheets_entries, xl_relationships,
};
use crate::model::{DocProps, SheetEntry, Workbook, Xl};
use crate::relationships::relationships_text;
use vstd::prelude::*;

verus! {

/// Whether `dir` is a directory above `name`: a proper beginning of `name`
/// that ends in a separator.
pub open spec fn is_ancestor(dir: Seq<char>, name: Seq<char>) -> bool {
    exists|n: int| is_cut(name, n) && dir == name.take(n)
}

/// Whether `name` has a separator just before position `n`, and more behind
/// it.
pub open spec fn is_cut(name: Seq<char>, n: int) -> bool {
    0 < n < name.len() && name[n - 1] == '/'
}

/// Whether no character of `text` is a separator.
pub open spec fn has_no_separator(text: Seq<char>) -> bool {
    forall|i: int| 0 <= i < text.len() ==> #[trigger] text[i] != '/'
}

/// Decimal text holds no separator.
proof fn lemma_decimal_has_no_separator(n: nat)
    ensures
        has_no_separator(decimal(n)),
{
    lemma_decimal_digits(n);
    assert forall|i: int| 0 <= i < decimal(n).len() implies #[trigger] decimal(n)[i] != '/' by {
        assert(is_digit(decimal(n)[i]));
    }
}

/// The cuts of a name that is made of a head, a number and a tail without
/// separators lie in the head.
proof fn lemma_cuts_lie_in_head(head: Seq<char>, k: nat, tail: Seq<char>, n: int)
    requires
        has_no_separator(tail),
        is_cut(head + decimal(k) + tail, n),
    ensures
        0 < n <= head.len(),
        head[n - 1] == '/',
        (head + decimal(k) + tail).take(n) == head.take(n),
{
    let name = head + decimal(k) + tail;
    lemma_decimal_has_no_separator(k);
    if n - 1 >= head.len() {
        if n - 1 < head.len() + decimal(k).len() {
            assert(name[n - 1] == decimal(k)[n - 1 - head.len()]);
        } else {
            assert(name[n - 1] == tail[n - 1 - head.len() - decimal(k).len()]);
        }
    }
    assert(name[n - 1] == head[n - 1]);
    assert(name.take(n) =~= head.take(n));
}

/// The directory of the workbook section, character by character.
proof fn lemma_xl_directory()
    ensures
        directory_name("xl"@) == seq!['x', 'l', '/'],
{
    reveal_strlit("xl");
    assert(directory_name("xl"@) =~= seq!['x', 'l', '/']);
}

/// The only directory above the comments of a worksheet is that of the
/// workbook section.
pub proof fn lemma_ancestors_of_comments(k: nat, dir: Seq<char>)
    requires
        is_ancestor(dir, comments_path(k)),
    ensures
        dir == directory_name("xl"@),
{
    reveal_strlit("xl/comments");
    reveal_strlit(".xml");
    lemma_xl_directory();
    let head = "xl/comments"@;
    let n = choose|n: int| is_cut(comments_path(k), n) && dir == comments_path(k).take(n);
    lemma_cuts_lie_in_head(head, k, ".xml"@, n);
    assert(n == 3);
    assert(head.take(3) =~= seq!['x', 'l', '/']);
}

/// The directories above a worksheet are that of the workbook section and
/// that of the worksheets.
pub proof fn lemma_ancestors_of_sheet(k: nat, dir: Seq<char>)
    requires
        is_ancestor(dir, sheet_path(k)),
    ensures
        dir == directory_name("xl"@) || dir == directory_name("xl/worksheets"@),
{
    reveal_strlit("xl/worksheets/sheet");
    reveal_strlit("xl/worksheets");
    reveal_strlit(".xml");
    lemma_xl_directory();
    let head = "xl/worksheets/sheet"@;
    let n = choose|n: int| is_cut(sheet_path(k), n) && dir == sheet_path(k).take(n);
    lemma_cuts_lie_in_head(head, k, ".xml"@, n);
    assert(n == 3 || n == 14);
    if n == 3 {
        assert(head.take(3) =~= seq!['x', 'l', '/']);
    } else {
        assert(head.take(14) =~= directory_name("xl/worksheets"@));
    }
}

/// The directories above the relationships of a worksheet are that of the
/// workbook section, that of the worksheets and that of their relationships.
pub proof fn lemma_ancestors_of_sheet_rels(k: nat, dir: Seq<char>)
    requires
        is_ancestor(dir, sheet_rels_path(k)),
    ensures
        dir == directory_name("xl"@) || dir == directory_name("xl/worksheets"@) || dir
            == directory_name("xl/worksheets/_rels"@),
{
    reveal_strlit("xl/worksheets/_rels/sheet");
    reveal_strlit("xl/worksheets/_rels");
    reveal_strlit("xl/worksheets");
    reveal_strlit(".xml.rels");
    lemma_xl_directory();
    let head = "xl/worksheets/_rels/sheet"@;
    let n = choose|n: int| is_cut(sheet_rels_path(k), n) && dir == sheet_rels_path(k).take(n);
    lemma_cuts_lie_in_head(head, k, ".xml.rels"@, n);
    assert(n == 3 || n == 14 || n == 20);
    if n == 3 {
        assert(head.take(3) =~= seq!['x', 'l', '/']);
    } else if n == 14 {
        assert(head.take(14) =~= directory_name("xl/worksheets"@));
    } else {
        assert(head.take(20) =~= directory_name("xl/worksheets/_rels"@));
    }
}

/// Whether every directory above `name` is one of `dirs`.
pub open spec fn ancestors_within(name: Seq<char>, dirs: Set<Seq<char>>) -> bool {
    forall|dir: Seq<char>| #[trigger] is_ancestor(dir, name) ==> dirs.contains(dir)
}

/// The directory of the document properties.
pub open spec fn doc_props_dir() -> Seq<char> {
    directory_name("docProps"@)
}

/// The directory of the workbook section.
pub open spec fn xl_dir() -> Seq<char> {
    directory_name("xl"@)
}

/// The directory of the theme.
pub open spec fn theme_dir() -> Seq<char> {
    directory_name("xl/theme"@)
}

/// The directory of the worksheets.
pub open spec fn worksheets_dir() -> Seq<char> {
    directory_name("xl/worksheets"@)
}

/// The directory of the relationships of the worksheets.
pub open spec fn worksheets_rels_dir() -> Seq<char> {
    directory_name("xl/worksheets/_rels"@)
}

/// The directory of the relationships of the workbook.
pub open spec fn workbook_rels_dir() -> Seq<char> {
    directory_name("xl/_rels"@)
}

/// The directories above the document properties.
proof fn lemma_ancestors_of_doc_props()
    ensures
        ancestors_within(doc_props_dir(), Set::empty()),
        ancestors_within("docProps/app.xml"@, set![doc_props_dir()]),
        ancestors_within("docProps/core.xml"@, set![doc_props_dir()]),
        ancestors_within("docProps/custom.xml"@, set![doc_props_dir()]),
        ancestors_within("[Content_Types].xml"@, Set::empty()),
{
    reveal_strlit("docProps");
    reveal_strlit("docProps/app.xml");
    reveal_strlit("docProps/core.xml");
    reveal_strlit("docProps/custom.xml");
    reveal_strlit("[Content_Types].xml");
    let d = doc_props_dir();
    assert(d =~= "docProps"@.push('/'));
    assert forall|dir: Seq<char>| !is_ancestor(dir, d) by {
        if is_ancestor(dir, d) {
            let n = choose|n: int| is_cut(d, n) && dir == d.take(n);
            assert(d[n - 1] == "docProps"@[n - 1]);
        }
    }
    assert forall|dir: Seq<char>| !is_ancestor(dir, "[Content_Types].xml"@) by {
        if is_ancestor(dir, "[Content_Types].xml"@) {
            let n = choose|n: int|
                is_cut("[Content_Types].xml"@, n) && dir == "[Content_Types].xml"@.take(n);
            assert(false);
        }
    }
    assert forall|dir: Seq<char>| is_ancestor(dir, "docProps/app.xml"@) implies dir == d by {
        let name = "docProps/app.xml"@;
        let n = choose|n: int| is_cut(name, n) && dir == name.take(n);
        assert(n == 9);
        assert(name.take(9) =~= d);
    }
    assert forall|dir: Seq<char>| is_ancestor(dir, "docProps/core.xml"@) implies dir == d by {
        let name = "docProps/core.xml"@;
        let n = choose|n: int| is_cut(name, n) && dir == name.take(n);
        assert(n == 9);
        assert(name.take(9) =~= d);
    }
    assert forall|dir: Seq<char>| is_ancestor(dir, "docProps/custom.xml"@) implies dir == d by {
        let name = "docProps/custom.xml"@;
        let n = choose|n: int| is_cut(name, n) && dir == name.take(n);
        assert(n == 9);
        assert(name.take(9) =~= d);
    }
}

/// The directories above the files of the workbook section that lie at
/// fixed places.
proof fn lemma_ancestors_of_xl_files()
    ensures
        ancestors_within("xl/sharedStrings.xml"@, set![xl_dir()]),
        ancestors_within("xl/styles.xml"@, set![xl_dir()]),
        ancestors_within("xl/workbook.xml"@, set![xl_dir()]),
        ancestors_within("xl/theme/theme1.xml"@, set![xl_dir(), theme_dir()]),
        ancestors_within("xl/_rels/workbook.xml.rels"@, set![xl_dir(), workbook_rels_dir()]),
{
    reveal_strlit("xl");
    reveal_strlit("xl/theme");
    reveal_strlit("xl/_rels");
    reveal_strlit("xl/sharedStrings.xml");
    reveal_strlit("xl/styles.xml");
    reveal_strlit("xl/workbook.xml");
    reveal_strlit("xl/theme/theme1.xml");
    reveal_strlit("xl/_rels/workbook.xml.rels");
    let x = xl_dir();
    assert(x =~= "xl"@.push('/'));
    assert forall|dir: Seq<char>| is_ancestor(dir, "xl/sharedStrings.xml"@) implies dir == x by {
        let name = "xl/sharedStrings.xml"@;
        let n = choose|n: int| is_cut(name, n) && dir == name.take(n);
        assert(n == 3);
        assert(name.take(3) =~= x);
    }
    assert forall|dir: Seq<char>| is_ancestor(dir, "xl/styles.xml"@) implies dir == x by {
        let name = "xl/styles.xml"@;
        let n = choose|n: int| is_cut(name, n) && dir == name.take(n);
        assert(n == 3);
        assert(name.take(3) =~= x);
    }
    assert forall|dir: Seq<char>| is_ancestor(dir, "xl/workbook.xml"@) implies dir == x by {
        let name = "xl/workbook.xml"@;
        let n = choose|n: int| is_cut(name, n) && dir == name.take(n);
        assert(n == 3);
        assert(name.take(3) =~= x);
    }
    assert forall|dir: Seq<char>| is_ancestor(dir, "xl/theme/theme1.xml"@) implies dir == x
        || dir == theme_dir() by {
        let name = "xl/theme/theme1.xml"@;
        let n = choose|n: int| is_cut(name, n) && dir == name.take(n);
        assert(n == 3 || n == 9);
        if n == 3 {
            assert(name.take(3) =~= x);
        } else {
            assert(name.take(9) =~= theme_dir());
        }
    }
    assert forall|dir: Seq<char>| is_ancestor(dir, "xl/_rels/workbook.xml.rels"@) implies dir
        == x || dir == workbook_rels_dir() by {
        let name = "xl/_rels/workbook.xml.rels"@;
        let n = choose|n: int| is_cut(name, n) && dir == name.take(n);
        assert(n == 3 || n == 9);
        if n == 3 {
            assert(name.take(3) =~= x);
        } else {
            assert(name.take(9) =~= workbook_rels_dir());
        }
    }
}

/// The directories above the directories of the workbook section.
proof fn lemma_ancestors_of_xl_directories()
    ensures
        ancestors_within(xl_dir(), Set::empty()),
        ancestors_within(theme_dir(), set![xl_dir()]),
        ancestors_within(worksheets_dir(), set![xl_dir()]),
        ancestors_within(workbook_rels_dir(), set![xl_dir()]),
        ancestors_within(worksheets_rels_dir(), set![xl_dir(), worksheets_dir()]),
{
    reveal_strlit("xl");
    reveal_strlit("xl/theme");
    reveal_strlit("xl/_rels");
    reveal_strlit("xl/worksheets");
    reveal_strlit("xl/worksheets/_rels");
    let x = xl_dir();
    assert(x =~= "xl"@.push('/'));
    assert forall|dir: Seq<char>| !is_ancestor(dir, x) by {
        if is_ancestor(dir, x) {
            let n = choose|n: int| is_cut(x, n) && dir == x.take(n);
            assert(x[n - 1] == "xl"@[n - 1]);
        }
    }
    assert forall|dir: Seq<char>| is_ancestor(dir, theme_dir()) implies dir == x by {
        let name = theme_dir();
        let n = choose|n: int| is_cut(name, n) && dir == name.take(n);
        assert(name[n - 1] == "xl/theme"@[n - 1]);
        assert(n == 3);
        assert(name.take(3) =~= x);
    }
    assert forall|dir: Seq<char>| is_ancestor(dir, worksheets_dir()) implies dir == x by {
        let name = worksheets_dir();
        let n = choose|n: int| is_cut(name, n) && dir == name.take(n);
        assert(name[n - 1] == "xl/worksheets"@[n - 1]);
        assert(n == 3);
        assert(name.take(3) =~= x);
    }
    assert forall|dir: Seq<char>| is_ancestor(dir, workbook_rels_dir()) implies dir == x by {
        let name = workbook_rels_dir();
        let n = choose|n: int| is_cut(name, n) && dir == name.take(n);
        assert(name[n - 1] == "xl/_rels"@[n - 1]);
        assert(n == 3);
        assert(name.take(3) =~= x);
    }
    assert forall|dir: Seq<char>| is_ancestor(dir, worksheets_rels_dir()) implies dir == x
        || dir == worksheets_dir() by {
        let name = worksheets_rels_dir();
        let n = choose|n: int| is_cut(name, n) && dir == name.take(n);
        assert(name[n - 1] == "xl/worksheets/_rels"@[n - 1]);
        assert(n == 3 || n == 14);
        if n == 3 {
            assert(name.take(3) =~= x);
        } else {
            assert(name.take(14) =~= worksheets_dir());
        }
    }
}

/// Whether `entries` hold the directory `dir`.
pub open spec fn holds_dir(entries: Seq<(Seq<char>, Option<Seq<u8>>)>, dir: Seq<char>) -> bool {
    exists|j: int| 0 <= j < entries.len() && #[trigger] entries[j] == (dir, None::<Seq<u8>>)
}

/// Whether every directory above an entry is staged before the entry.
pub open spec fn directories_first(entries: Seq<(Seq<char>, Option<Seq<u8>>)>) -> bool {
    forall|i: int, dir: Seq<char>|
        0 <= i < entries.len() && #[trigger] is_ancestor(dir, entries[i].0) ==> holds_dir(
            entries.take(i),
            dir,
        )
}

/// Entries that hold a directory hold it with more entries behind them.
proof fn lemma_holds_dir_grows(
    entries: Seq<(Seq<char>, Option<Seq<u8>>)>,
    more: Seq<(Seq<char>, Option<Seq<u8>>)>,
    dir: Seq<char>,
)
    requires
        holds_dir(entries, dir),
    ensures
        holds_dir(entries + more, dir),
{
    let j = choose|j: int| 0 <= j < entries.len() && #[trigger] entries[j] == (dir, None::<Seq<u8>>);
    assert((entries + more)[j] == (dir, None::<Seq<u8>>));
}

/// Entries hold the directory that stands at their end.
proof fn lemma_holds_last_dir(entries: Seq<(Seq<char>, Option<Seq<u8>>)>, path: Seq<char>)
    ensures
        holds_dir(entries + seq![dir_entry(path)], directory_name(path)),
{
    let all = entries + seq![dir_entry(path)];
    assert(all[entries.len() as int] == (directory_name(path), None::<Seq<u8>>));
}

/// Entries in which every directory comes first stay so with more entries
/// behind them, where every directory above the new ones is held already.
proof fn lemma_append_entries(
    entries: Seq<(Seq<char>, Option<Seq<u8>>)>,
    more: Seq<(Seq<char>, Option<Seq<u8>>)>,
    dirs: Set<Seq<char>>,
)
    requires
        directories_first(entries),
        forall|i: int| 0 <= i < more.len() ==> ancestors_within((#[trigger] more[i]).0, dirs),
        forall|dir: Seq<char>| dirs.contains(dir) ==> holds_dir(entries, dir),
    ensures
        directories_first(entries + more),
{
    let all = entries + more;
    assert forall|i: int, dir: Seq<char>|
        0 <= i < all.len() && #[trigger] is_ancestor(dir, all[i].0) implies holds_dir(
        all.take(i),
        dir,
    ) by {
        if i < entries.len() {
            assert(all[i] == entries[i]);
            assert(all.take(i) =~= entries.take(i));
        } else {
            assert(all[i] == more[i - entries.len()]);
            assert(ancestors_within(more[i - entries.len()].0, dirs));
            assert(dirs.contains(dir));
            assert(all.take(i) =~= entries + more.take(i - entries.len()));
            lemma_holds_dir_grows(entries, more.take(i - entries.len()), dir);
        }
    }
}

/// The entries of the worksheets lie under the three directories that are
/// staged before them.
proof fn lemma_ancestors_of_sheets_entries(sheets: Seq<SheetEntry>, order: Seq<int>)
    ensures
        forall|i: int|
            0 <= i < sheets_entries(sheets, order).len() ==> ancestors_within(
                (#[trigger] sheets_entries(sheets, order)[i]).0,
                set![xl_dir(), worksheets_dir(), worksheets_rels_dir()],
            ),
{
    let dirs = set![xl_dir(), worksheets_dir(), worksheets_rels_dir()];
    let p = |name: Seq<char>| ancestors_within(name, dirs);
    assert forall|k: nat| p(#[trigger] comments_path(k)) && p(sheet_path(k)) && p(
        sheet_rels_path(k),
    ) by {
        assert forall|dir: Seq<char>| #[trigger]
            is_ancestor(dir, comments_path(k)) implies dirs.contains(dir) by {
            lemma_ancestors_of_comments(k, dir);
        }
        assert forall|dir: Seq<char>| #[trigger]
            is_ancestor(dir, sheet_path(k)) implies dirs.contains(dir) by {
            lemma_ancestors_of_sheet(k, dir);
        }
        assert forall|dir: Seq<char>| #[trigger]
            is_ancestor(dir, sheet_rels_path(k)) implies dirs.contains(dir) by {
            lemma_ancestors_of_sheet_rels(k, dir);
        }
    }
    lemma_sheets_entry_names(sheets, order, p);
    let entries = sheets_entries(sheets, order);
    assert forall|i: int| 0 <= i < entries.len() implies ancestors_within(
        (#[trigger] entries[i]).0,
        dirs,
    ) by {
        assert(p(entries[i].0));
    }
}

/// Whether `entries` keep the rule and hold every directory of `held`.
spec fn settled(entries: Seq<(Seq<char>, Option<Seq<u8>>)>, held: Set<Seq<char>>) -> bool {
    &&& directories_first(entries)
    &&& forall|dir: Seq<char>| held.contains(dir) ==> holds_dir(entries, dir)
}

/// Settled entries stay settled with files behind them that lie under
/// directories that are held.
proof fn lemma_stage_files(
    entries: Seq<(Seq<char>, Option<Seq<u8>>)>,
    more: Seq<(Seq<char>, Option<Seq<u8>>)>,
    dirs: Set<Seq<char>>,
    held: Set<Seq<char>>,
)
    requires
        settled(entries, held),
        dirs.subset_of(held),
        forall|i: int| 0 <= i < more.len() ==> ancestors_within((#[trigger] more[i]).0, dirs),
    ensures
        settled(entries + more, held),
{
    lemma_append_entries(entries, more, dirs);
    assert forall|dir: Seq<char>| held.contains(dir) implies holds_dir(entries + more, dir) by {
        lemma_holds_dir_grows(entries, more, dir);
    }
}

/// Settled entries stay settled with a directory behind them that lies under
/// directories that are held, and hold that directory too.
proof fn lemma_stage_directory(
    entries: Seq<(Seq<char>, Option<Seq<u8>>)>,
    path: Seq<char>,
    dirs: Set<Seq<char>>,
    held: Set<Seq<char>>,
)
    requires
        settled(entries, held),
        dirs.subset_of(held),
        ancestors_within(directory_name(path), dirs),
    ensures
        settled(entries + seq![dir_entry(path)], held.insert(directory_name(path))),
{
    let more = seq![dir_entry(path)];
    lemma_stage_files(entries, more, dirs, held);
    lemma_holds_last_dir(entries, path);
}

/// The directories that the document properties bring.
spec fn doc_props_held(d: DocProps) -> Set<Seq<char>> {
    if d.spec_is_empty() {
        Set::empty()
    } else {
        set![doc_props_dir()]
    }
}

/// The entries of the document properties are settled.
proof fn lemma_doc_props_settled(d: DocProps)
    ensures
        settled(doc_props_entries(d), doc_props_held(d)),
{
    lemma_ancestors_of_doc_props();
    let none = Set::<Seq<char>>::empty();
    let start = Seq::<(Seq<char>, Option<Seq<u8>>)>::empty();
    if !d.spec_is_empty() {
        let held = none.insert(doc_props_dir());
        let only = set![doc_props_dir()];
        let s1 = start + seq![dir_entry("docProps"@)];
        let s2 = s1 + optional_file("docProps/app.xml"@, d.app);
        let s3 = s2 + optional_file("docProps/core.xml"@, d.core);
        let s4 = s3 + optional_file("docProps/custom.xml"@, d.custom);
        lemma_stage_directory(start, "docProps"@, none, none);
        lemma_stage_files(s1, optional_file("docProps/app.xml"@, d.app), only, held);
        lemma_stage_files(s2, optional_file("docProps/core.xml"@, d.core), only, held);
        lemma_stage_files(s3, optional_file("docProps/custom.xml"@, d.custom), only, held);
        assert(s4 =~= doc_props_entries(d));
        assert(held =~= doc_props_held(d));
    }
}

/// Settled entries stay settled with the theme behind them, where they hold
/// the directory of the workbook section.
proof fn lemma_theme_settled(
    entries: Seq<(Seq<char>, Option<Seq<u8>>)>,
    held: Set<Seq<char>>,
    theme: Option<String>,
)
    requires
        settled(entries, held),
        held.contains(xl_dir()),
    ensures
        settled(
            entries + (match theme {
                Some(text) => seq![
                    dir_entry("xl/theme"@),
                    part_entry("xl/theme/theme1.xml"@, text@),
                ],
                None => Seq::empty(),
            }),
            held,
        ),
{
    lemma_ancestors_of_xl_files();
    lemma_ancestors_of_xl_directories();
    match theme {
        Some(text) => {
            let t1 = entries + seq![dir_entry("xl/theme"@)];
            let file = seq![part_entry("xl/theme/theme1.xml"@, text@)];
            let both = seq![dir_entry("xl/theme"@), part_entry("xl/theme/theme1.xml"@, text@)];
            lemma_stage_directory(entries, "xl/theme"@, set![xl_dir()], held);
            lemma_stage_files(t1, file, set![xl_dir(), theme_dir()], held.insert(theme_dir()));
            assert(t1 + file =~= entries + both);
        },
        None => {
            assert(entries + Seq::<(Seq<char>, Option<Seq<u8>>)>::empty() =~= entries);
        },
    }
}

/// Settled entries stay settled with the entries behind them that open a
/// workbook section, and hold its directories then.
proof fn lemma_leading_settled(
    entries: Seq<(Seq<char>, Option<Seq<u8>>)>,
    held: Set<Seq<char>>,
    xl: Xl,
)
    requires
        settled(entries, held),
    ensures
        settled(
            entries + leading_entries(xl),
            held.insert(xl_dir()).insert(worksheets_dir()).insert(worksheets_rels_dir()),
        ),
{
    lemma_ancestors_of_xl_files();
    lemma_ancestors_of_xl_directories();
    let none = Set::<Seq<char>>::empty();
    let under_xl = set![xl_dir()];
    let held1 = held.insert(xl_dir());
    let x1 = entries + seq![dir_entry("xl"@)];
    lemma_stage_directory(entries, "xl"@, none, held);
    let sst = optional_file("xl/sharedStrings.xml"@, xl.sst);
    let x2 = x1 + sst;
    lemma_stage_files(x1, sst, under_xl, held1);
    let styles = seq![part_entry("xl/styles.xml"@, xl.styles->0@)];
    let x3 = x2 + styles;
    lemma_stage_files(x2, styles, under_xl, held1);
    let theme = match xl.theme {
        Some(text) => seq![dir_entry("xl/theme"@), part_entry("xl/theme/theme1.xml"@, text@)],
        None => Seq::empty(),
    };
    let x4 = x3 + theme;
    lemma_theme_settled(x3, held1, xl.theme);
    let x5 = x4 + seq![dir_entry("xl/worksheets"@)];
    lemma_stage_directory(x4, "xl/worksheets"@, under_xl, held1);
    let held2 = held1.insert(worksheets_dir());
    let x6 = x5 + seq![dir_entry("xl/worksheets/_rels"@)];
    lemma_stage_directory(x5, "xl/worksheets/_rels"@, set![xl_dir(), worksheets_dir()], held2);
    assert(x6 =~= entries + leading_entries(xl));
}

/// Settled entries that hold the directory of the workbook section stay
/// settled with the entries behind them that close the section.
proof fn lemma_closing_settled(
    entries: Seq<(Seq<char>, Option<Seq<u8>>)>,
    held: Set<Seq<char>>,
    descriptor: Seq<char>,
    relationships: Seq<char>,
)
    requires
        settled(entries, held),
        held.contains(xl_dir()),
    ensures
        settled(
            entries + seq![
                part_entry("xl/workbook.xml"@, descriptor),
                dir_entry("xl/_rels"@),
                file_entry("xl/_rels/workbook.xml.rels"@, relationships),
            ],
            held,
        ),
{
    lemma_ancestors_of_xl_files();
    lemma_ancestors_of_xl_directories();
    let under_xl = set![xl_dir()];
    let first = seq![part_entry("xl/workbook.xml"@, descriptor)];
    let x1 = entries + first;
    lemma_stage_files(entries, first, under_xl, held);
    let x2 = x1 + seq![dir_entry("xl/_rels"@)];
    lemma_stage_directory(x1, "xl/_rels"@, under_xl, held);
    let last = seq![file_entry("xl/_rels/workbook.xml.rels"@, relationships)];
    lemma_stage_files(
        x2,
        last,
        set![xl_dir(), workbook_rels_dir()],
        held.insert(workbook_rels_dir()),
    );
    assert(x2 + last =~= entries + seq![
        part_entry("xl/workbook.xml"@, descriptor),
        dir_entry("xl/_rels"@),
        file_entry("xl/_rels/workbook.xml.rels"@, relationships),
    ]);
}

/// Whatever a package holds, every directory is staged before the entries
/// that lie beneath it.
pub proof fn lemma_directories_first(wb: Workbook)
    ensures
        directories_first(package_entries(wb)),
{
    lemma_ancestors_of_doc_props();
    let xl = wb.xl;
    let docs = doc_props_entries(wb.doc_props);
    let held0 = doc_props_held(wb.doc_props);
    lemma_doc_props_settled(wb.doc_props);
    let x1 = docs + leading_entries(xl);
    let held1 = held0.insert(xl_dir()).insert(worksheets_dir()).insert(worksheets_rels_dir());
    lemma_leading_settled(docs, held0, xl);
    let sheets = sheets_entries(xl.worksheets@, sheet_order(xl));
    let x2 = x1 + sheets;
    lemma_ancestors_of_sheets_entries(xl.worksheets@, sheet_order(xl));
    lemma_stage_files(x1, sheets, set![xl_dir(), worksheets_dir(), worksheets_rels_dir()], held1);
    let closing = seq![
        part_entry("xl/workbook.xml"@, xl.workbook_part->0.xml@),
        dir_entry("xl/_rels"@),
        file_entry("xl/_rels/workbook.xml.rels"@, relationships_text(xl_relationships(xl))),
    ];
    let x3 = x2 + closing;
    lemma_closing_settled(
        x2,
        held1,
        xl.workbook_part->0.xml@,
        relationships_text(xl_relationships(xl)),
    );
    let manifest = seq![manifest_entry(package_receipts(wb))];
    lemma_stage_files(x3, manifest, Set::empty(), held1);
    assert(x3 + manifest =~= package_entries(wb));
}

} // verus!
