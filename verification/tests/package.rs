use sheetpack::archive::{Archive, WriteError};
use sheetpack::model::{DocProps, SheetEntry, Workbook, WorkbookPart, Worksheet, Xl};
use sheetpack::rtype::RType;
use sheetpack::writer::{
    check_xl, write_content_types, write_doc_props, write_part, write_relationships,
    write_worksheet, write_xl,
};
use sheetpack::location::FileLocation;
use sheetpack::relationships::Relationships;

const DECL: &str = "<?xml version=\"1.0\" encoding=\"UTF-8\" standalone=\"yes\"?>";
const RELS_NS: &str = "http://schemas.openxmlformats.org/package/2006/relationships";
const REL_TYPES: &str = "http://schemas.openxmlformats.org/officeDocument/2006/relationships";

fn no_doc_props() -> DocProps {
    DocProps { app: None, core: None, custom: None }
}

fn sheet(id: &str, body: &str, comments: Option<&str>) -> SheetEntry {
    SheetEntry {
        id: id.to_string(),
        sheet: Worksheet {
            worksheet_part: body.to_string(),
            comments: comments.map(|c| c.to_string()),
        },
    }
}

fn xl(declared: &[&str], sheets: Vec<SheetEntry>) -> Xl {
    Xl {
        sst: None,
        styles: Some("<styleSheet/>".to_string()),
        theme: None,
        workbook_part: Some(WorkbookPart {
            xml: "<workbook/>".to_string(),
            sheet_ids: declared.iter().map(|s| s.to_string()).collect(),
        }),
        worksheets: sheets,
    }
}

fn unpack(bytes: Vec<u8>) -> Vec<(String, String)> {
    let mut archive = zip::ZipArchive::new(std::io::Cursor::new(bytes)).unwrap();
    let mut out = Vec::new();
    for i in 0..archive.len() {
        let mut file = archive.by_index(i).unwrap();
        assert_eq!(file.compression(), zip::CompressionMethod::Stored);
        let mut text = String::new();
        std::io::Read::read_to_string(&mut file, &mut text).unwrap();
        out.push((file.name().to_string(), text));
    }
    out
}

fn names(entries: &[(String, String)]) -> Vec<&str> {
    entries.iter().map(|e| e.0.as_str()).collect()
}

fn text_of<'a>(entries: &'a [(String, String)], name: &str) -> &'a str {
    let found: Vec<&(String, String)> = entries.iter().filter(|e| e.0 == name).collect();
    assert_eq!(found.len(), 1);
    found[0].1.as_str()
}

fn part(body: &str) -> String {
    format!("{}{}", DECL, body)
}

fn relationship(id: &str, kind: &str, target: &str) -> String {
    format!("<Relationship Id=\"{}\" Type=\"{}/{}\" Target=\"{}\"/>", id, REL_TYPES, kind, target)
}

fn relationships(inner: &str) -> String {
    format!("{}<Relationships xmlns=\"{}\">{}</Relationships>", DECL, RELS_NS, inner)
}

#[test]
fn smallest_package_holds_the_mandatory_parts() {
    let wb = Workbook { doc_props: no_doc_props(), xl: xl(&[], Vec::new()) };
    let entries = unpack(sheetpack::writer::write(wb).unwrap());
    assert_eq!(
        names(&entries),
        vec![
            "xl/",
            "xl/styles.xml",
            "xl/worksheets/",
            "xl/worksheets/_rels/",
            "xl/workbook.xml",
            "xl/_rels/",
            "xl/_rels/workbook.xml.rels",
            "[Content_Types].xml",
        ]
    );
    assert_eq!(text_of(&entries, "xl/styles.xml"), part("<styleSheet/>"));
    assert_eq!(text_of(&entries, "xl/workbook.xml"), part("<workbook/>"));
    assert_eq!(
        text_of(&entries, "xl/_rels/workbook.xml.rels"),
        relationships(&relationship("rId1", "styles", "styles.xml"))
    );
}

#[test]
fn worksheets_follow_the_declared_order() {
    let sheets = vec![sheet("S1", "<one/>", None), sheet("S3", "<three/>", None)];
    let wb = Workbook { doc_props: no_doc_props(), xl: xl(&["S3", "S1", "S2"], sheets) };
    let entries = unpack(sheetpack::writer::write(wb).unwrap());
    assert_eq!(text_of(&entries, "xl/worksheets/sheet1.xml"), part("<three/>"));
    assert_eq!(text_of(&entries, "xl/worksheets/sheet2.xml"), part("<one/>"));
    assert!(!names(&entries).contains(&"xl/worksheets/sheet3.xml"));
    assert!(!names(&entries).contains(&"xl/worksheets/_rels/sheet3.xml.rels"));
    let expected = relationships(&format!(
        "{}{}{}",
        relationship("rId1", "styles", "styles.xml"),
        relationship("rId2", "worksheet", "worksheets/sheet1.xml"),
        relationship("rId3", "worksheet", "worksheets/sheet2.xml"),
    ));
    assert_eq!(text_of(&entries, "xl/_rels/workbook.xml.rels"), expected);
}

#[test]
fn identifier_declared_twice_is_written_once() {
    let sheets = vec![sheet("a", "<a/>", None), sheet("b", "<b/>", None)];
    let wb = Workbook { doc_props: no_doc_props(), xl: xl(&["b", "a", "b", "a"], sheets) };
    let entries = unpack(sheetpack::writer::write(wb).unwrap());
    assert_eq!(text_of(&entries, "xl/worksheets/sheet1.xml"), part("<b/>"));
    assert_eq!(text_of(&entries, "xl/worksheets/sheet2.xml"), part("<a/>"));
    assert!(!names(&entries).contains(&"xl/worksheets/sheet3.xml"));
}

#[test]
fn first_worksheet_of_an_identifier_stands_for_it() {
    let sheets = vec![sheet("a", "<first/>", None), sheet("a", "<second/>", None)];
    let wb = Workbook { doc_props: no_doc_props(), xl: xl(&["a"], sheets) };
    let entries = unpack(sheetpack::writer::write(wb).unwrap());
    assert_eq!(text_of(&entries, "xl/worksheets/sheet1.xml"), part("<first/>"));
    assert!(!names(&entries).contains(&"xl/worksheets/sheet2.xml"));
}

#[test]
fn undeclared_worksheet_is_not_written() {
    let sheets = vec![sheet("a", "<a/>", None)];
    let wb = Workbook { doc_props: no_doc_props(), xl: xl(&[], sheets) };
    let entries = unpack(sheetpack::writer::write(wb).unwrap());
    assert!(!names(&entries).contains(&"xl/worksheets/sheet1.xml"));
}

#[test]
fn every_worksheet_counts_its_relationships_from_one() {
    let sheets = vec![
        sheet("a", "<a/>", Some("<ca/>")),
        sheet("b", "<b/>", None),
        sheet("c", "<c/>", Some("<cc/>")),
    ];
    let wb = Workbook { doc_props: no_doc_props(), xl: xl(&["a", "b", "c"], sheets) };
    let entries = unpack(sheetpack::writer::write(wb).unwrap());
    assert_eq!(
        text_of(&entries, "xl/worksheets/_rels/sheet1.xml.rels"),
        relationships(&relationship("rId1", "comments", "../comments1.xml"))
    );
    assert_eq!(text_of(&entries, "xl/worksheets/_rels/sheet2.xml.rels"), relationships(""));
    assert_eq!(
        text_of(&entries, "xl/worksheets/_rels/sheet3.xml.rels"),
        relationships(&relationship("rId1", "comments", "../comments3.xml"))
    );
    assert_eq!(text_of(&entries, "xl/comments1.xml"), part("<ca/>"));
    assert_eq!(text_of(&entries, "xl/comments3.xml"), part("<cc/>"));
    assert!(!names(&entries).contains(&"xl/comments2.xml"));
    let workbook_rels = text_of(&entries, "xl/_rels/workbook.xml.rels");
    assert!(workbook_rels.contains("Id=\"rId4\""));
    assert!(!workbook_rels.contains("Id=\"rId5\""));
}

#[test]
fn comments_come_before_the_worksheet_that_has_them() {
    let sheets = vec![sheet("a", "<a/>", Some("<ca/>"))];
    let wb = Workbook { doc_props: no_doc_props(), xl: xl(&["a"], sheets) };
    let entries = unpack(sheetpack::writer::write(wb).unwrap());
    assert_eq!(
        names(&entries),
        vec![
            "xl/",
            "xl/styles.xml",
            "xl/worksheets/",
            "xl/worksheets/_rels/",
            "xl/comments1.xml",
            "xl/worksheets/sheet1.xml",
            "xl/worksheets/_rels/sheet1.xml.rels",
            "xl/workbook.xml",
            "xl/_rels/",
            "xl/_rels/workbook.xml.rels",
            "[Content_Types].xml",
        ]
    );
}

#[test]
fn document_without_properties_has_no_doc_props_entry() {
    let sheets = vec![sheet("a", "<a/>", Some("<ca/>"))];
    let wb = Workbook { doc_props: no_doc_props(), xl: xl(&["a"], sheets) };
    let entries = unpack(sheetpack::writer::write(wb).unwrap());
    for (name, _) in entries.iter() {
        assert!(!name.starts_with("docProps"));
    }
    assert!(!text_of(&entries, "[Content_Types].xml").contains("docProps"));
}

#[test]
fn document_properties_are_written_where_present() {
    let doc_props = DocProps {
        app: Some("<app/>".to_string()),
        core: None,
        custom: Some("<custom/>".to_string()),
    };
    let wb = Workbook { doc_props, xl: xl(&[], Vec::new()) };
    let entries = unpack(sheetpack::writer::write(wb).unwrap());
    assert_eq!(
        names(&entries)[..4].to_vec(),
        vec!["docProps/", "docProps/app.xml", "docProps/custom.xml", "xl/"]
    );
    assert_eq!(text_of(&entries, "docProps/app.xml"), part("<app/>"));
    assert_eq!(text_of(&entries, "docProps/custom.xml"), part("<custom/>"));
    let manifest = text_of(&entries, "[Content_Types].xml");
    assert!(manifest.contains(
        "<Override PartName=\"docProps/app.xml\" \
         ContentType=\"application/vnd.openxmlformats-officedocument.extended-properties+xml\"/>"
    ));
    assert!(!manifest.contains("docProps/core.xml"));
}

#[test]
fn all_three_document_properties() {
    let doc_props = DocProps {
        app: Some("<app/>".to_string()),
        core: Some("<core/>".to_string()),
        custom: Some("<custom/>".to_string()),
    };
    assert!(!doc_props.is_empty());
    let mut archive = Archive::new();
    let receipts = write_doc_props(doc_props, &mut archive).unwrap();
    let kinds: Vec<RType> = receipts.iter().map(|r| r.rtype).collect();
    assert_eq!(kinds, vec![RType::DocPropApp, RType::DocPropCore, RType::DocPropCustom]);
    let paths: Vec<&str> = receipts.iter().map(|r| r.path.as_str()).collect();
    assert_eq!(paths, vec!["docProps/app.xml", "docProps/core.xml", "docProps/custom.xml"]);
    let entries = unpack(archive.finish().unwrap());
    assert_eq!(
        names(&entries),
        vec!["docProps/", "docProps/app.xml", "docProps/core.xml", "docProps/custom.xml"]
    );
}

#[test]
fn no_document_properties_stage_nothing() {
    assert!(no_doc_props().is_empty());
    let mut archive = Archive::new();
    let receipts = write_doc_props(no_doc_props(), &mut archive).unwrap();
    assert!(receipts.is_empty());
    assert!(unpack(archive.finish().unwrap()).is_empty());
}

#[test]
fn empty_shared_string_table_is_still_written() {
    let mut section = xl(&[], Vec::new());
    section.sst = Some(String::new());
    let wb = Workbook { doc_props: no_doc_props(), xl: section };
    let entries = unpack(sheetpack::writer::write(wb).unwrap());
    assert_eq!(text_of(&entries, "xl/sharedStrings.xml"), part(""));
    assert_eq!(names(&entries)[1], "xl/sharedStrings.xml");
    let expected = relationships(&format!(
        "{}{}",
        relationship("rId1", "sharedStrings", "sharedStrings.xml"),
        relationship("rId2", "styles", "styles.xml"),
    ));
    assert_eq!(text_of(&entries, "xl/_rels/workbook.xml.rels"), expected);
}

#[test]
fn absent_shared_string_table_is_not_written() {
    let wb = Workbook { doc_props: no_doc_props(), xl: xl(&[], Vec::new()) };
    let entries = unpack(sheetpack::writer::write(wb).unwrap());
    assert!(!names(&entries).contains(&"xl/sharedStrings.xml"));
    assert!(!text_of(&entries, "[Content_Types].xml").contains("sharedStrings"));
}

#[test]
fn theme_gets_its_directory_and_its_relationship() {
    let mut section = xl(&["a"], vec![sheet("a", "<a/>", None)]);
    section.sst = Some("<sst/>".to_string());
    section.theme = Some("<theme/>".to_string());
    let wb = Workbook { doc_props: no_doc_props(), xl: section };
    let entries = unpack(sheetpack::writer::write(wb).unwrap());
    assert_eq!(
        names(&entries)[..7].to_vec(),
        vec![
            "xl/",
            "xl/sharedStrings.xml",
            "xl/styles.xml",
            "xl/theme/",
            "xl/theme/theme1.xml",
            "xl/worksheets/",
            "xl/worksheets/_rels/",
        ]
    );
    let expected = relationships(&format!(
        "{}{}{}{}",
        relationship("rId1", "sharedStrings", "sharedStrings.xml"),
        relationship("rId2", "styles", "styles.xml"),
        relationship("rId3", "theme", "theme/theme1.xml"),
        relationship("rId4", "worksheet", "worksheets/sheet1.xml"),
    ));
    assert_eq!(text_of(&entries, "xl/_rels/workbook.xml.rels"), expected);
}

#[test]
fn manifest_declares_every_part_once() {
    let doc_props = DocProps { app: None, core: Some("<core/>".to_string()), custom: None };
    let mut section = xl(
        &["a", "b"],
        vec![sheet("a", "<a/>", Some("<ca/>")), sheet("b", "<b/>", Some("<cb/>"))],
    );
    section.sst = Some("<sst/>".to_string());
    section.theme = Some("<theme/>".to_string());
    let wb = Workbook { doc_props, xl: section };
    let entries = unpack(sheetpack::writer::write(wb).unwrap());
    assert_eq!(names(&entries).last(), Some(&"[Content_Types].xml"));
    let manifest = text_of(&entries, "[Content_Types].xml");
    let parts = [
        "docProps/core.xml",
        "xl/sharedStrings.xml",
        "xl/styles.xml",
        "xl/theme/theme1.xml",
        "xl/comments1.xml",
        "xl/worksheets/sheet1.xml",
        "xl/comments2.xml",
        "xl/worksheets/sheet2.xml",
        "xl/workbook.xml",
    ];
    let mut at = 0;
    for part in parts.iter() {
        let needle = format!("<Override PartName=\"{}\" ", part);
        assert_eq!(manifest.matches(needle.as_str()).count(), 1);
        let found = manifest.find(needle.as_str()).unwrap();
        assert!(found > at);
        at = found;
    }
    assert_eq!(manifest.matches("<Override ").count(), parts.len());
    assert_eq!(manifest.matches("<Default ").count(), 8);
    assert!(!manifest.contains(".rels\""));
}

#[test]
fn missing_style_sheet_is_refused() {
    let mut section = xl(&[], Vec::new());
    section.styles = None;
    assert_eq!(check_xl(&section), Some(RType::Style));
    let wb = Workbook { doc_props: no_doc_props(), xl: section };
    assert!(matches!(sheetpack::writer::write(wb), Err(WriteError::MissingPart(RType::Style))));
}

#[test]
fn missing_descriptor_is_refused() {
    let mut section = xl(&[], Vec::new());
    section.workbook_part = None;
    assert_eq!(check_xl(&section), Some(RType::Workbook));
    let wb = Workbook { doc_props: no_doc_props(), xl: section };
    let outcome = sheetpack::writer::write(wb);
    assert!(matches!(outcome, Err(WriteError::MissingPart(RType::Workbook))));
    assert_eq!(outcome.unwrap_err().message(), "a mandatory part is missing");
}

#[test]
fn style_sheet_is_missed_first() {
    let mut section = xl(&[], Vec::new());
    section.styles = None;
    section.workbook_part = None;
    let wb = Workbook { doc_props: no_doc_props(), xl: section };
    assert!(matches!(sheetpack::writer::write(wb), Err(WriteError::MissingPart(RType::Style))));
}

#[test]
fn refused_section_stages_nothing() {
    let mut section = xl(&[], Vec::new());
    section.styles = None;
    let mut archive = Archive::new();
    assert!(matches!(write_xl(section, &mut archive), Err(WriteError::MissingPart(RType::Style))));
    assert!(unpack(archive.finish().unwrap()).is_empty());
}

#[test]
fn complete_section_has_nothing_missing() {
    assert_eq!(check_xl(&xl(&[], Vec::new())), None);
}

#[test]
fn equal_documents_give_equal_archives() {
    let make = || Workbook {
        doc_props: DocProps { app: Some("<app/>".to_string()), core: None, custom: None },
        xl: xl(&["a"], vec![sheet("a", "<a/>", Some("<ca/>"))]),
    };
    let first = sheetpack::writer::write(make()).unwrap();
    let second = sheetpack::writer::write(make()).unwrap();
    assert!(!first.is_empty());
    assert_eq!(first, second);
}

#[test]
fn part_text_is_stored_as_utf8() {
    let mut archive = Archive::new();
    let receipt = write_part(
        "<t>\u{e9}\u{4e16}</t>",
        &mut archive,
        FileLocation::from("xl/sharedStrings.xml"),
        RType::Sst,
    )
    .unwrap();
    assert_eq!(receipt.path.as_str(), "xl/sharedStrings.xml");
    assert_eq!(receipt.rtype, RType::Sst);
    let bytes = archive.finish().unwrap();
    let needle = "<t>\u{e9}\u{4e16}</t>".as_bytes();
    assert!(bytes.windows(needle.len()).any(|w| w == needle));
    let entries = unpack(bytes);
    assert_eq!(
        entries,
        vec![("xl/sharedStrings.xml".to_string(), part("<t>\u{e9}\u{4e16}</t>"))]
    );
}

#[test]
fn directory_name_ends_in_one_separator() {
    let mut archive = Archive::new();
    archive.add_directory("a").unwrap();
    archive.add_directory("b/").unwrap();
    archive.add_directory("c\\").unwrap();
    archive.add_file("a/f", "").unwrap();
    let entries = unpack(archive.finish().unwrap());
    assert_eq!(names(&entries), vec!["a/", "b/", "c\\", "a/f"]);
}

#[test]
fn worksheet_at_a_two_digit_position() {
    let mut archive = Archive::new();
    let ws = Worksheet { worksheet_part: "<w/>".to_string(), comments: Some("<c/>".to_string()) };
    let receipts = write_worksheet(&ws, &mut archive, 12).unwrap();
    let paths: Vec<&str> = receipts.iter().map(|r| r.path.as_str()).collect();
    assert_eq!(paths, vec!["xl/comments12.xml", "xl/worksheets/sheet12.xml"]);
    let kinds: Vec<RType> = receipts.iter().map(|r| r.rtype).collect();
    assert_eq!(kinds, vec![RType::Comments, RType::Worksheet]);
    let entries = unpack(archive.finish().unwrap());
    assert_eq!(
        names(&entries),
        vec![
            "xl/comments12.xml",
            "xl/worksheets/sheet12.xml",
            "xl/worksheets/_rels/sheet12.xml.rels",
        ]
    );
    assert_eq!(
        text_of(&entries, "xl/worksheets/_rels/sheet12.xml.rels"),
        relationships(&relationship("rId1", "comments", "../comments12.xml"))
    );
}

#[test]
fn relationship_part_of_an_empty_scope_is_written() {
    let mut archive = Archive::new();
    write_relationships(&Relationships::new(), &mut archive, "_rels/.rels").unwrap();
    let entries = unpack(archive.finish().unwrap());
    assert_eq!(entries, vec![("_rels/.rels".to_string(), relationships(""))]);
}

#[test]
fn manifest_of_given_receipts() {
    let mut archive = Archive::new();
    let receipt =
        write_part("<s/>", &mut archive, FileLocation::from("xl/styles.xml"), RType::Style)
            .unwrap();
    write_content_types(vec![receipt], &mut archive).unwrap();
    let entries = unpack(archive.finish().unwrap());
    assert_eq!(names(&entries), vec!["xl/styles.xml", "[Content_Types].xml"]);
    let manifest = text_of(&entries, "[Content_Types].xml");
    assert!(manifest.starts_with(DECL));
    assert!(manifest.ends_with(
        "<Override PartName=\"xl/styles.xml\" ContentType=\"application/vnd.openxmlformats-\
         officedocument.spreadsheetml.styles+xml\"/></Types>"
    ));
}

#[test]
fn many_worksheets_keep_their_order() {
    let mut sheets = Vec::new();
    let mut declared = Vec::new();
    for i in 0..25 {
        sheets.push(sheet(&format!("id{}", i), &format!("<s{}/>", i), None));
    }
    for i in (0..25).rev() {
        declared.push(format!("id{}", i));
    }
    let declared: Vec<&str> = declared.iter().map(|s| s.as_str()).collect();
    let wb = Workbook { doc_props: no_doc_props(), xl: xl(&declared, sheets) };
    let entries = unpack(sheetpack::writer::write(wb).unwrap());
    for k in 1..=25 {
        assert_eq!(
            text_of(&entries, &format!("xl/worksheets/sheet{}.xml", k)),
            part(&format!("<s{}/>", 25 - k))
        );
    }
    assert!(text_of(&entries, "xl/_rels/workbook.xml.rels")
        .contains(&relationship("rId26", "worksheet", "worksheets/sheet25.xml")));
}

#[test]
fn write_test() {
    let wb = Workbook {
        doc_props: DocProps {
            app: Some("<Properties/>".to_string()),
            core: Some("<cp:coreProperties/>".to_string()),
            custom: Some("<Properties/>".to_string()),
        },
        xl: xl(&["rId1"], vec![sheet("rId1", "<worksheet/>", None)]),
    };
    assert!(wb.doc_props.app.is_some());
    assert!(wb.doc_props.core.is_some());
    assert!(wb.doc_props.custom.is_some());
    let res = sheetpack::writer::write(wb).unwrap();
    let entries = unpack(res);
    assert_eq!(entries.len(), 14);
    assert_eq!(text_of(&entries, "docProps/core.xml"), part("<cp:coreProperties/>"));
}

#[test]
fn directories_come_before_what_lies_beneath_them() {
    let doc_props = DocProps { app: Some("<app/>".to_string()), core: None, custom: None };
    let mut section = xl(
        &["a", "b"],
        vec![sheet("a", "<a/>", Some("<ca/>")), sheet("b", "<b/>", None)],
    );
    section.sst = Some("<sst/>".to_string());
    section.theme = Some("<theme/>".to_string());
    let wb = Workbook { doc_props, xl: section };
    let entries = unpack(sheetpack::writer::write(wb).unwrap());
    let all = names(&entries);
    for (i, name) in all.iter().enumerate() {
        for (n, c) in name.char_indices() {
            if c == '/' && n + 1 < name.len() {
                let dir = &name[..n + 1];
                assert!(all[..i].contains(&dir));
            }
        }
    }
    assert_eq!(all[0], "docProps/");
    assert_eq!(all[2], "xl/");
}

#[test]
fn no_two_entries_share_a_name() {
    let doc_props = DocProps {
        app: Some("<app/>".to_string()),
        core: Some("<core/>".to_string()),
        custom: Some("<custom/>".to_string()),
    };
    let mut sheets = Vec::new();
    let mut declared = Vec::new();
    for i in 0..12 {
        sheets.push(sheet(&format!("s{}", i), "<w/>", Some("<c/>")));
        declared.push(format!("s{}", i));
    }
    let declared: Vec<&str> = declared.iter().map(|s| s.as_str()).collect();
    let mut section = xl(&declared, sheets);
    section.sst = Some("<sst/>".to_string());
    section.theme = Some("<theme/>".to_string());
    let wb = Workbook { doc_props, xl: section };
    let entries = unpack(sheetpack::writer::write(wb).unwrap());
    let all = names(&entries);
    assert_eq!(all.len(), 4 + 7 + 12 * 3 + 3 + 1);
    for i in 0..all.len() {
        for j in (i + 1)..all.len() {
            assert_ne!(all[i], all[j]);
        }
    }
}

fn targets_of(rels: &str) -> Vec<String> {
    rels.split("Target=\"").skip(1).map(|s| s[..s.find('"').unwrap()].to_string()).collect()
}

#[test]
fn every_relationship_leads_to_an_entry() {
    let mut section = xl(
        &["a", "b", "c"],
        vec![sheet("a", "<a/>", Some("<ca/>")), sheet("c", "<c/>", Some("<cc/>"))],
    );
    section.sst = Some("<sst/>".to_string());
    section.theme = Some("<theme/>".to_string());
    let wb = Workbook { doc_props: no_doc_props(), xl: section };
    let entries = unpack(sheetpack::writer::write(wb).unwrap());
    let all = names(&entries);
    let targets = targets_of(text_of(&entries, "xl/_rels/workbook.xml.rels"));
    assert_eq!(
        targets,
        vec![
            "sharedStrings.xml",
            "styles.xml",
            "theme/theme1.xml",
            "worksheets/sheet1.xml",
            "worksheets/sheet2.xml",
        ]
    );
    for target in targets.iter() {
        assert!(all.contains(&format!("xl/{}", target).as_str()));
    }
    for k in 1..=2 {
        let rels = text_of(&entries, &format!("xl/worksheets/_rels/sheet{}.xml.rels", k));
        let targets = targets_of(rels);
        assert_eq!(targets, vec![format!("../comments{}.xml", k)]);
        assert!(all.contains(&format!("xl/{}", &targets[0][3..]).as_str()));
    }
    assert_eq!(text_of(&entries, "xl/comments2.xml"), part("<cc/>"));
}

#[test]
fn every_file_begins_with_the_declaration() {
    let doc_props = DocProps { app: Some("<app/>".to_string()), core: None, custom: None };
    let mut section = xl(&["a"], vec![sheet("a", "<a/>", Some("<ca/>"))]);
    section.sst = Some(String::new());
    section.theme = Some("<theme/>".to_string());
    let wb = Workbook { doc_props, xl: section };
    let entries = unpack(sheetpack::writer::write(wb).unwrap());
    let mut files = 0;
    for (name, text) in entries.iter() {
        if !name.ends_with('/') {
            files += 1;
            assert!(text.starts_with(DECL));
            assert_eq!(text.matches("<?xml").count(), 1);
        }
    }
    assert_eq!(files, 10);
}
