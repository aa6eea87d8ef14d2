//! Writes a document into a package: stages every part, gathers the
//! relationships of every scope, and closes with the manifest.

use crate::archive::{
    stored_archive, fits, grown_by, is_open, staged, stored, Archive, WriteError,
};
use crate::content_types::ContentTypes;
use crate::decimal::{decimal, to_decimal};
use crate::laws::order::lemma_emitted_grows;
use crate::layout::{
    comments_path, dir_entry, doc_props_entries, doc_props_receipts, file_entry,
    leading_entries, leading_receipts, leading_targets, manifest_entry, missing_part,
    optional_file, optional_receipt, package_entries, package_receipts, part_entry,
    relationships_of, sheet_order, sheet_path, sheet_relationships, sheet_rels_path,
    sheets_entries,
    sheets_receipts, worksheet_entries, worksheet_receipts, worksheet_relationships,
    xl_entries, xl_receipts, xl_relationships,
};
use crate::location::{receipts_view, FileLocation, WriteProof};
use crate::model::{emitted, find_sheet, ids_view, DocProps, SheetEntry, Workbook, Worksheet, Xl};
use crate::relationships::{relationships_text, Relationships};
use crate::rtype::RType;
use vstd::prelude::*;
use vstd::string::*;

verus! {

/// The receipts of two lists, one behind the other, are the receipts of the
/// joined list.
proof fn lemma_receipts_concat(a: Seq<WriteProof>, b: Seq<WriteProof>)
    ensures
        receipts_view(a + b) == receipts_view(a) + receipts_view(b),
{
    assert(receipts_view(a + b) =~= receipts_view(a) + receipts_view(b));
}

/// A path made of a fixed head, a position in decimal, and a fixed tail.
fn indexed_path(head: &str, idx: usize, tail: &str) -> (s: String)
    ensures
        s@ == head@ + decimal(idx as nat) + tail@,
{
    let mut s = String::from_str(head);
    let digits = to_decimal(idx as u128);
    s.append(digits.as_str());
    s.append(tail);
    s
}

/// Files fit one behind the other where each of the two lists fits.
pub proof fn lemma_fits_concat(
    a: Seq<(Seq<char>, Option<Seq<u8>>)>,
    b: Seq<(Seq<char>, Option<Seq<u8>>)>,
)
    ensures
        fits(a + b) <==> fits(a) && fits(b),
{
    if fits(a + b) {
        assert forall|i: int| 0 <= i < a.len() implies ((#[trigger] a[i]).1 matches Some(bytes)
            ==> bytes.len() <= u32::MAX) by {
            assert((a + b)[i] == a[i]);
        }
        assert forall|i: int| 0 <= i < b.len() implies ((#[trigger] b[i]).1 matches Some(bytes)
            ==> bytes.len() <= u32::MAX) by {
            assert((a + b)[a.len() + i] == b[i]);
        }
    }
    if fits(a) && fits(b) {
        assert forall|i: int| 0 <= i < (a + b).len() implies ((#[trigger] (a + b)[i]).1 matches Some(
            bytes,
        ) ==> bytes.len() <= u32::MAX) by {
            if i < a.len() {
                assert((a + b)[i] == a[i]);
            } else {
                assert((a + b)[i] == b[i - a.len()]);
            }
        }
    }
}

/// Stages one part at `path`: a file that holds the declaration and then
/// `body`. Hands out the receipt of the part. It succeeds where the archive
/// is open and the file fits.
pub fn write_part(body: &str, writer: &mut Archive, path: FileLocation, rtype: RType) -> (r: Result<
    WriteProof,
    WriteError,
>)
    ensures
        r matches Ok(p) ==> p@ == (path@, rtype) && grown_by(
            *old(writer),
            *final(writer),
            seq![part_entry(path@, body@)],
        ),
        is_open(*old(writer)) && fits(seq![part_entry(path@, body@)]) ==> r is Ok,
        r matches Err(e) ==> !(e is MissingPart),
{
    let mut text = String::from_str("<?xml version=\"1.0\" encoding=\"UTF-8\" standalone=\"yes\"?>");
    text.append(body);
    proof {
        let entry = part_entry(path@, body@);
        assert(seq![entry][0] == entry);
    }
    writer.add_file(path.as_str(), text.as_str())?;
    Ok(WriteProof { path, rtype })
}

/// Stages the relationship part of one scope at `path`. A scope without
/// relationships gets its part all the same. It succeeds where the archive
/// is open and the file fits.
pub fn write_relationships(obj: &Relationships, writer: &mut Archive, path: &str) -> (r: Result<
    (),
    WriteError,
>)
    ensures
        r is Ok ==> grown_by(
            *old(writer),
            *final(writer),
            seq![file_entry(path@, relationships_text(obj@))],
        ),
        is_open(*old(writer)) && fits(seq![file_entry(path@, relationships_text(obj@))])
            ==> r is Ok,
        r matches Err(e) ==> !(e is MissingPart),
{
    let s = obj.to_xml();
    proof {
        let entry = file_entry(path@, relationships_text(obj@));
        assert(seq![entry][0] == entry);
    }
    writer.add_file(path, s.as_str())
}

/// Stages an optional part: nothing where it is absent.
fn write_optional(
    part: &Option<String>,
    writer: &mut Archive,
    path: &'static str,
    rtype: RType,
    result: &mut Vec<WriteProof>,
) -> (r: Result<(), WriteError>)
    ensures
        r is Ok ==> grown_by(*old(writer), *final(writer), optional_file(path@, *part))
            && receipts_view(final(result)@) == receipts_view(old(result)@) + optional_receipt(
            path@,
            rtype,
            *part,
        ),
        is_open(*old(writer)) && fits(optional_file(path@, *part)) ==> r is Ok,
        r matches Err(e) ==> !(e is MissingPart),
{
    match part {
        Some(text) => {
            let ghost receipts = receipts_view(result@);
            let p = write_part(text.as_str(), writer, FileLocation::Ptr(path), rtype)?;
            result.push(p);
            assert(receipts_view(result@) =~= receipts + optional_receipt(path@, rtype, *part));
            Ok(())
        },
        None => {
            assert(staged(*writer) =~= staged(*writer) + optional_file(path@, *part));
            assert(receipts_view(result@) =~= receipts_view(result@) + optional_receipt(
                path@,
                rtype,
                *part,
            ));
            Ok(())
        },
    }
}

/// Stages the document properties. A document without any gets neither the
/// directory nor a file: the call succeeds, hands out no receipt and leaves
/// the archive as it was. Otherwise it succeeds where the archive is open
/// and the files fit.
pub fn write_doc_props(doc_props: DocProps, writer: &mut Archive) -> (r: Result<
    Vec<WriteProof>,
    WriteError,
>)
    ensures
        r matches Ok(ps) ==> grown_by(*old(writer), *final(writer), doc_props_entries(doc_props))
            && receipts_view(ps@) == doc_props_receipts(doc_props),
        doc_props.spec_is_empty() ==> (r matches Ok(ps) && ps@.len() == 0 && *final(writer)
            == *old(writer)),
        is_open(*old(writer)) && fits(doc_props_entries(doc_props)) ==> r is Ok,
        r matches Err(e) ==> !(e is MissingPart),
{
    let ghost before = staged(*writer);
    let mut result: Vec<WriteProof> = Vec::new();
    if doc_props.is_empty() {
        assert(before =~= before + doc_props_entries(doc_props));
        assert(receipts_view(result@) =~= doc_props_receipts(doc_props));
        return Ok(result);
    }
    proof {
        let e0 = seq![dir_entry("docProps"@)];
        let e1 = optional_file("docProps/app.xml"@, doc_props.app);
        let e2 = optional_file("docProps/core.xml"@, doc_props.core);
        let e3 = optional_file("docProps/custom.xml"@, doc_props.custom);
        lemma_fits_concat(e0, e1);
        lemma_fits_concat(e0 + e1, e2);
        lemma_fits_concat(e0 + e1 + e2, e3);
    }
    writer.add_directory("docProps")?;
    write_optional(&doc_props.app, writer, "docProps/app.xml", RType::DocPropApp, &mut result)?;
    write_optional(
        &doc_props.core,
        writer,
        "docProps/core.xml",
        RType::DocPropCore,
        &mut result,
    )?;
    write_optional(
        &doc_props.custom,
        writer,
        "docProps/custom.xml",
        RType::DocPropCustom,
        &mut result,
    )?;
    assert(staged(*writer) =~= before + doc_props_entries(doc_props));
    assert(receipts_view(result@) =~= doc_props_receipts(doc_props));
    Ok(result)
}

/// Stages the worksheet that is written at position `idx`: its comments
/// where it has any, its body, and its own relationships, whose ids start
/// at one whatever the position. It succeeds where the archive is open and
/// the files fit.
pub fn write_worksheet(ws: &Worksheet, writer: &mut Archive, idx: usize) -> (r: Result<
    Vec<WriteProof>,
    WriteError,
>)
    ensures
        r matches Ok(ps) ==> grown_by(
            *old(writer),
            *final(writer),
            worksheet_entries(*ws, idx as nat),
        ) && receipts_view(ps@) == worksheet_receipts(*ws, idx as nat),
        is_open(*old(writer)) && fits(worksheet_entries(*ws, idx as nat)) ==> r is Ok,
        r matches Err(e) ==> !(e is MissingPart),
{
    let ghost before = staged(*writer);
    let mut result: Vec<WriteProof> = Vec::new();
    let mut relationships = Relationships::new();
    proof {
        let e0 = optional_file(comments_path(idx as nat), ws.comments);
        let e1 = seq![part_entry(sheet_path(idx as nat), ws.worksheet_part@)];
        let e2 = seq![
            file_entry(
                sheet_rels_path(idx as nat),
                relationships_text(worksheet_relationships(*ws, idx as nat)),
            ),
        ];
        lemma_fits_concat(e0, e1);
        lemma_fits_concat(e0 + e1, e2);
        assert(worksheet_entries(*ws, idx as nat) =~= e0 + e1 + e2);
        if ws.comments is Some {
            assert(e0[0] == part_entry(comments_path(idx as nat), ws.comments->0@));
        }
    }
    match &ws.comments {
        Some(comments) => {
            let path = indexed_path("xl/comments", idx, ".xml");
            let p = write_part(
                comments.as_str(),
                writer,
                FileLocation::Owned(path),
                RType::Comments,
            )?;
            relationships.add(RType::Comments, indexed_path("../comments", idx, ".xml"));
            result.push(p);
        },
        None => {},
    }
    assert(staged(*writer) =~= before + optional_file(comments_path(idx as nat), ws.comments));
    assert(receipts_view(result@) =~= optional_receipt(
        comments_path(idx as nat),
        RType::Comments,
        ws.comments,
    ));
    assert(relationships@ =~= worksheet_relationships(*ws, idx as nat));
    let path = indexed_path("xl/worksheets/sheet", idx, ".xml");
    let p = write_part(
        ws.worksheet_part.as_str(),
        writer,
        FileLocation::Owned(path),
        RType::Worksheet,
    )?;
    result.push(p);
    let rels_path = indexed_path("xl/worksheets/_rels/sheet", idx, ".xml.rels");
    write_relationships(&relationships, writer, rels_path.as_str())?;
    assert(staged(*writer) =~= before + worksheet_entries(*ws, idx as nat));
    assert(receipts_view(result@) =~= worksheet_receipts(*ws, idx as nat));
    Ok(result)
}

/// Finds the part that a workbook section lacks, if it lacks one.
pub fn check_xl(xl: &Xl) -> (r: Option<RType>)
    ensures
        r == missing_part(*xl),
{
    if xl.styles.is_none() {
        Some(RType::Style)
    } else if xl.workbook_part.is_none() {
        Some(RType::Workbook)
    } else {
        None
    }
}

/// Stages the parts that open a workbook section, and notes the
/// relationship of each. It succeeds where the archive is open and the files
/// fit.
fn write_leading(
    xl: &Xl,
    styles: &String,
    writer: &mut Archive,
    result: &mut Vec<WriteProof>,
    relationships: &mut Relationships,
) -> (r: Result<(), WriteError>)
    requires
        xl.styles == Some(*styles),
        old(result)@.len() == 0,
        old(relationships)@.len() == 0,
    ensures
        r is Ok ==> {
            &&& grown_by(*old(writer), *final(writer), leading_entries(*xl))
            &&& receipts_view(final(result)@) == leading_receipts(*xl)
            &&& final(relationships)@ == relationships_of(leading_targets(*xl))
        },
        is_open(*old(writer)) && fits(leading_entries(*xl)) ==> r is Ok,
        r matches Err(e) ==> !(e is MissingPart),
{
    let ghost before = staged(*writer);
    proof {
        let e0 = seq![dir_entry("xl"@)];
        let e1 = optional_file("xl/sharedStrings.xml"@, xl.sst);
        let e2 = seq![part_entry("xl/styles.xml"@, styles@)];
        let e3 = if xl.theme is Some {
            seq![dir_entry("xl/theme"@)]
        } else {
            Seq::empty()
        };
        let e4 = if xl.theme is Some {
            seq![part_entry("xl/theme/theme1.xml"@, xl.theme->0@)]
        } else {
            Seq::empty()
        };
        let e5 = seq![dir_entry("xl/worksheets"@), dir_entry("xl/worksheets/_rels"@)];
        lemma_fits_concat(e0, e1);
        lemma_fits_concat(e0 + e1, e2);
        lemma_fits_concat(e0 + e1 + e2, e3);
        lemma_fits_concat(e0 + e1 + e2 + e3, e4);
        lemma_fits_concat(e0 + e1 + e2 + e3 + e4, e5);
        assert(leading_entries(*xl) =~= e0 + e1 + e2 + e3 + e4 + e5);
    }
    writer.add_directory("xl")?;
    write_optional(&xl.sst, writer, "xl/sharedStrings.xml", RType::Sst, result)?;
    if xl.sst.is_some() {
        relationships.add(RType::Sst, String::from_str("sharedStrings.xml"));
    }
    let p = write_part(styles.as_str(), writer, FileLocation::Ptr("xl/styles.xml"), RType::Style)?;
    result.push(p);
    relationships.add(RType::Style, String::from_str("styles.xml"));
    match &xl.theme {
        Some(theme) => {
            writer.add_directory("xl/theme")?;
            let p = write_part(
                theme.as_str(),
                writer,
                FileLocation::Ptr("xl/theme/theme1.xml"),
                RType::Theme,
            )?;
            result.push(p);
            relationships.add(RType::Theme, String::from_str("theme/theme1.xml"));
        },
        None => {},
    }
    writer.add_directory("xl/worksheets")?;
    writer.add_directory("xl/worksheets/_rels")?;
    assert(staged(*writer) =~= before + leading_entries(*xl));
    assert(receipts_view(result@) =~= leading_receipts(*xl));
    assert(relationships@ =~= relationships_of(leading_targets(*xl)));
    Ok(())
}

/// Where the worksheets fit, each of them fits at its position.
proof fn lemma_sheet_fits(sheets: Seq<SheetEntry>, order: Seq<int>, k: int)
    requires
        fits(sheets_entries(sheets, order)),
        0 <= k < order.len(),
    ensures
        fits(worksheet_entries(sheets[order[k]].sheet, (k + 1) as nat)),
    decreases order.len(),
{
    let before = sheets_entries(sheets, order.drop_last());
    let own = worksheet_entries(sheets[order.last()].sheet, order.len());
    lemma_fits_concat(before, own);
    if k < order.len() - 1 {
        lemma_sheet_fits(sheets, order.drop_last(), k);
        assert(order.drop_last()[k] == order[k]);
    }
}

/// A list of flags, one per worksheet, none of them set.
fn unset_flags(len: usize) -> (done: Vec<bool>)
    ensures
        done@.len() == len,
        forall|j: int| 0 <= j < len ==> !(#[trigger] done@[j]),
{
    let mut done: Vec<bool> = Vec::new();
    let mut k: usize = 0;
    while k < len
        invariant
            k <= len,
            done@.len() == k,
            forall|j: int| 0 <= j < k ==> !(#[trigger] done@[j]),
        decreases len - k,
    {
        done.push(false);
        k += 1;
    }
    done
}

/// Stages the worksheets in the order in which `ids` declares them, each at
/// the next position, and notes the relationship of each. An identifier that
/// no worksheet carries is passed over, and so is one that was declared
/// before. It succeeds where the archive is open and the files fit.
fn write_sheets(
    sheets: &Vec<SheetEntry>,
    ids: &Vec<String>,
    writer: &mut Archive,
    result: &mut Vec<WriteProof>,
    relationships: &mut Relationships,
) -> (r: Result<(), WriteError>)
    ensures
        r is Ok ==> {
            let order = emitted(ids_view(ids@), sheets@);
            &&& grown_by(*old(writer), *final(writer), sheets_entries(sheets@, order))
            &&& receipts_view(final(result)@) == receipts_view(old(result)@) + sheets_receipts(
                sheets@,
                order,
            )
            &&& final(relationships)@ == old(relationships)@ + sheet_relationships(
                old(relationships)@.len(),
                order.len(),
            )
        },
        is_open(*old(writer)) && fits(sheets_entries(sheets@, emitted(ids_view(ids@), sheets@)))
            ==> r is Ok,
        r matches Err(e) ==> !(e is MissingPart),
{
    let ghost before = staged(*writer);
    let ghost receipts_before = receipts_view(result@);
    let ghost rels_before = relationships@;
    let ghost declared = ids_view(ids@);
    let ghost full = emitted(declared, sheets@);
    let n: usize = ids.len();
    let mut done = unset_flags(sheets.len());
    let ghost mut order: Seq<int> = Seq::empty();
    let mut count: usize = 0;
    let mut i: usize = 0;
    proof {
        assert(declared.take(0) =~= Seq::<Seq<char>>::empty());
        assert(staged(*writer) =~= before + sheets_entries(sheets@, order));
        assert(receipts_view(result@) =~= receipts_before + sheets_receipts(sheets@, order));
        assert(relationships@ =~= rels_before + sheet_relationships(rels_before.len(), 0));
    }
    while i < n
        invariant
            i <= n,
            n == ids@.len(),
            declared == ids_view(ids@),
            full == emitted(declared, sheets@),
            order == emitted(declared.take(i as int), sheets@),
            count == order.len(),
            count <= i,
            done@.len() == sheets@.len(),
            forall|j: int| 0 <= j < done@.len() ==> (#[trigger] done@[j] <==> order.contains(j)),
            grown_by(*old(writer), *writer, sheets_entries(sheets@, order)),
            before == staged(*old(writer)),
            receipts_view(result@) == receipts_before + sheets_receipts(sheets@, order),
            relationships@ == rels_before + sheet_relationships(rels_before.len(), count as nat),
        decreases n - i,
    {
        let ghost next = declared.take(i as int + 1);
        proof {
            assert(next.drop_last() =~= declared.take(i as int));
            assert(next.last() == ids@[i as int]@);
        }
        match find_sheet(sheets, &ids[i]) {
            Some(j) => {
                if !done[j] {
                    let position: usize = count + 1;
                    let ghost result_before = result@;
                    let ghost grown = order.push(j as int);
                    proof {
                        assert(grown.drop_last() =~= order);
                        assert(emitted(next, sheets@) == grown);
                        lemma_emitted_grows(declared, sheets@, i as int + 1);
                        assert(full[count as int] == grown[count as int]);
                        if fits(sheets_entries(sheets@, full)) {
                            lemma_sheet_fits(sheets@, full, count as int);
                        }
                    }
                    let mut ps = write_worksheet(&sheets[j].sheet, writer, position)?;
                    let ghost ps_view = ps@;
                    result.append(&mut ps);
                    relationships.add(
                        RType::Worksheet,
                        indexed_path("worksheets/sheet", position, ".xml"),
                    );
                    done.set(j, true);
                    proof {
                        lemma_flags_grow(done@, order, j as int);
                        assert(staged(*writer) =~= before + sheets_entries(sheets@, grown));
                        lemma_receipts_concat(result_before, ps_view);
                        assert(receipts_view(result@) =~= receipts_before + sheets_receipts(
                            sheets@,
                            grown,
                        ));
                        assert(relationships@ =~= rels_before + sheet_relationships(
                            rels_before.len(),
                            position as nat,
                        ));
                        order = grown;
                    }
                    count = position;
                } else {
                    assert(order.contains(j as int));
                }
            },
            None => {},
        }
        i += 1;
    }
    assert(declared.take(n as int) =~= declared);
    Ok(())
}

/// Flags that mark the worksheets of `order` mark those of `order` with `j`
/// behind it once the flag of `j` is set.
proof fn lemma_flags_grow(done: Seq<bool>, order: Seq<int>, j: int)
    requires
        0 <= j < done.len(),
        done[j],
        forall|m: int| 0 <= m < done.len() && m != j ==> (#[trigger] done[m] <==> order.contains(m)),
    ensures
        forall|m: int| 0 <= m < done.len() ==> (#[trigger] done[m] <==> order.push(j).contains(m)),
{
    let grown = order.push(j);
    assert forall|m: int| 0 <= m < done.len() implies (#[trigger] done[m] <==> grown.contains(
        m,
    )) by {
        if m == j {
            assert(grown[grown.len() - 1] == m);
        } else if order.contains(m) {
            let w = choose|w: int| 0 <= w < order.len() && order[w] == m;
            assert(grown[w] == m);
        } else if grown.contains(m) {
            let w = choose|w: int| 0 <= w < grown.len() && grown[w] == m;
            assert(order[w] == m);
        }
    }
}

/// Stages the workbook section: the shared strings where there are any, the
/// style sheet, the theme where there is one, the worksheets in the order in
/// which the descriptor declares them, the descriptor, and the relationships
/// of the workbook. A section that lacks a mandatory part is refused before
/// anything is staged; every other succeeds where the archive is open and
/// the files fit.
pub fn write_xl(xl: Xl, writer: &mut Archive) -> (r: Result<Vec<WriteProof>, WriteError>)
    ensures
        match missing_part(xl) {
            Some(kind) => r matches Err(WriteError::MissingPart(k)) && k == kind && *final(writer)
                == *old(writer),
            None => {
                &&& r matches Ok(ps) ==> grown_by(*old(writer), *final(writer), xl_entries(xl))
                    && receipts_view(ps@) == xl_receipts(xl)
                &&& is_open(*old(writer)) && fits(xl_entries(xl)) ==> r is Ok
                &&& r matches Err(e) ==> !(e is MissingPart)
            },
        },
{
    let ghost before = staged(*writer);
    let (styles, workbook_part) = match (&xl.styles, &xl.workbook_part) {
        (None, _) => {
            return Err(WriteError::MissingPart(RType::Style));
        },
        (Some(_), None) => {
            return Err(WriteError::MissingPart(RType::Workbook));
        },
        (Some(styles), Some(workbook_part)) => (styles, workbook_part),
    };
    let mut result: Vec<WriteProof> = Vec::new();
    let mut relationships = Relationships::new();
    proof {
        let e0 = leading_entries(xl);
        let e1 = sheets_entries(xl.worksheets@, sheet_order(xl));
        let e2 = seq![part_entry("xl/workbook.xml"@, workbook_part.xml@)];
        let e3 = seq![dir_entry("xl/_rels"@)];
        let e4 = seq![
            file_entry("xl/_rels/workbook.xml.rels"@, relationships_text(xl_relationships(xl))),
        ];
        lemma_fits_concat(e0, e1);
        lemma_fits_concat(e0 + e1, e2);
        lemma_fits_concat(e0 + e1 + e2, e3);
        lemma_fits_concat(e0 + e1 + e2 + e3, e4);
        assert(xl_entries(xl) =~= e0 + e1 + e2 + e3 + e4);
    }
    write_leading(&xl, styles, writer, &mut result, &mut relationships)?;
    write_sheets(
        &xl.worksheets,
        &workbook_part.sheet_ids,
        writer,
        &mut result,
        &mut relationships,
    )?;
    assert(relationships@ =~= xl_relationships(xl));
    let p = write_part(
        workbook_part.xml.as_str(),
        writer,
        FileLocation::Ptr("xl/workbook.xml"),
        RType::Workbook,
    )?;
    result.push(p);
    writer.add_directory("xl/_rels")?;
    write_relationships(&relationships, writer, "xl/_rels/workbook.xml.rels")?;
    assert(staged(*writer) =~= before + xl_entries(xl));
    assert(receipts_view(result@) =~= xl_receipts(xl));
    Ok(result)
}

/// Stages the manifest of a build: the fixed defaults, and one override for
/// each receipt. It succeeds where the archive is open and the file fits.
pub fn write_content_types(prooves: Vec<WriteProof>, writer: &mut Archive) -> (r: Result<
    (),
    WriteError,
>)
    ensures
        r is Ok ==> grown_by(
            *old(writer),
            *final(writer),
            seq![manifest_entry(receipts_view(prooves@))],
        ),
        is_open(*old(writer)) && fits(seq![manifest_entry(receipts_view(prooves@))]) ==> r is Ok,
        r matches Err(e) ==> !(e is MissingPart),
{
    let content_types = ContentTypes::from_receipts(prooves);
    let s = content_types.to_xml();
    proof {
        let entry = manifest_entry(receipts_view(prooves@));
        assert(seq![entry][0] == entry);
    }
    writer.add_file("[Content_Types].xml", s.as_str())
}

/// Writes a document into a package and hands out the bytes of the archive,
/// in which every entry is held by the store method.
///
/// A document whose workbook section lacks its style sheet or its descriptor
/// is refused with `MissingPart` before the archive is begun, and no other
/// document is. Every other document whose files fit into an archive is
/// written.
pub fn write(wb: Workbook) -> (r: Result<Vec<u8>, WriteError>)
    ensures
        match missing_part(wb.xl) {
            Some(kind) => r matches Err(WriteError::MissingPart(k)) && k == kind,
            None => {
                &&& r matches Ok(bytes) ==> bytes@ == stored_archive(package_entries(wb))
                &&& fits(package_entries(wb)) ==> r is Ok
                &&& r matches Err(e) ==> !(e is MissingPart)
            },
        },
{
    match check_xl(&wb.xl) {
        Some(kind) => {
            return Err(WriteError::MissingPart(kind));
        },
        None => {},
    }
    let mut writer = Archive::new();
    proof {
        let e0 = doc_props_entries(wb.doc_props);
        let e1 = xl_entries(wb.xl);
        let e2 = seq![manifest_entry(package_receipts(wb))];
        lemma_fits_concat(e0, e1);
        lemma_fits_concat(e0 + e1, e2);
    }
    let Workbook { doc_props, xl } = wb;
    let mut prooves = write_doc_props(doc_props, &mut writer)?;
    let ghost first = prooves@;
    let mut ps = write_xl(xl, &mut writer)?;
    proof {
        lemma_receipts_concat(first, ps@);
    }
    prooves.append(&mut ps);
    assert(receipts_view(prooves@) =~= package_receipts(wb));
    write_content_types(prooves, &mut writer)?;
    assert(staged(writer) =~= package_entries(wb));
    writer.finish()
}

} // verus!
