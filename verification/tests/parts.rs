use sheetpack::content_types::{default_content_types, ContentTypes};
use sheetpack::decimal::to_decimal;
use sheetpack::location::{location_text, FileLocation, WriteProof};
use sheetpack::relationships::{CtRelationship, Relationships, StTargetMode};
use sheetpack::rtype::{get_content_type, get_relationship_type, RType};
use sheetpack::xml::push_attribute;

#[test]
fn decimal_of_small_and_large_numbers() {
    assert_eq!(to_decimal(0), "0");
    assert_eq!(to_decimal(7), "7");
    assert_eq!(to_decimal(10), "10");
    assert_eq!(to_decimal(409), "409");
    assert_eq!(to_decimal(1234567890), "1234567890");
    assert_eq!(to_decimal(u128::MAX), "340282366920938463463374607431768211455");
}

#[test]
fn content_type_of_every_kind() {
    assert_eq!(
        get_content_type(RType::Sst),
        "application/vnd.openxmlformats-officedocument.spreadsheetml.sharedStrings+xml"
    );
    assert_eq!(
        get_content_type(RType::Comments),
        "application/vnd.openxmlformats-officedocument.spreadsheetml.comments+xml"
    );
    assert_eq!(
        get_content_type(RType::Worksheet),
        "application/vnd.openxmlformats-officedocument.spreadsheetml.worksheet+xml"
    );
    assert_eq!(
        get_content_type(RType::Workbook),
        "application/vnd.openxmlformats-officedocument.spreadsheetml.sheet.main+xml"
    );
    assert_eq!(
        get_content_type(RType::DocPropApp),
        "application/vnd.openxmlformats-officedocument.extended-properties+xml"
    );
    assert_eq!(
        get_content_type(RType::DocPropCore),
        "application/vnd.openxmlformats-package.core-properties+xml"
    );
    assert_eq!(
        get_content_type(RType::DocPropCustom),
        "application/vnd.openxmlformats-officedocument.custom-properties+xml"
    );
    assert_eq!(
        get_content_type(RType::Style),
        "application/vnd.openxmlformats-officedocument.spreadsheetml.styles+xml"
    );
    assert_eq!(
        get_content_type(RType::ExtLink),
        "application/vnd.openxmlformats-officedocument.spreadsheetml.externalLink+xml"
    );
    assert_eq!(
        get_content_type(RType::Theme),
        "application/vnd.openxmlformats-officedocument.theme+xml"
    );
}

#[test]
fn relationship_type_of_some_kinds() {
    assert_eq!(
        get_relationship_type(RType::Worksheet),
        "http://schemas.openxmlformats.org/officeDocument/2006/relationships/worksheet"
    );
    assert_eq!(
        get_relationship_type(RType::DocPropCore),
        "http://schemas.openxmlformats.org/package/2006/relationships/metadata/core-properties"
    );
}

#[test]
fn location_keeps_its_text() {
    let fixed = FileLocation::from("xl/styles.xml");
    let computed = FileLocation::from(String::from("xl/comments3.xml"));
    assert!(matches!(fixed, FileLocation::Ptr(_)));
    assert!(matches!(computed, FileLocation::Owned(_)));
    assert_eq!(fixed.as_str(), "xl/styles.xml");
    assert_eq!(computed.duplicate().as_str(), "xl/comments3.xml");
    assert_eq!(location_text(fixed.clone()), "xl/styles.xml");
    assert_eq!(String::from(fixed), "xl/styles.xml");
    assert_eq!(String::from(computed), "xl/comments3.xml");
}

#[test]
fn attribute_value_is_escaped() {
    let mut out = String::from("<a");
    push_attribute(&mut out, "k", "x<y>&'\"z");
    assert_eq!(out, "<a k=\"x&lt;y&gt;&amp;&apos;&quot;z\"");
    let mut plain = String::new();
    push_attribute(&mut plain, "Id", "rId1");
    assert_eq!(plain, " Id=\"rId1\"");
}

#[test]
fn relationship_ids_count_from_one() {
    let mut rels = Relationships::new();
    assert_eq!(rels.len(), 0);
    rels.add(RType::Style, String::from("styles.xml"));
    rels.add(RType::Theme, String::from("theme/theme1.xml"));
    rels.add(RType::Worksheet, String::from("worksheets/sheet1.xml"));
    assert_eq!(rels.len(), 3);
    let ids: Vec<&str> = rels.relationships.iter().map(|r| r.id.as_str()).collect();
    assert_eq!(ids, vec!["rId1", "rId2", "rId3"]);
    assert_eq!(rels.relationships[1].target, "theme/theme1.xml");
    assert_eq!(
        rels.relationships[1].ty,
        "http://schemas.openxmlformats.org/officeDocument/2006/relationships/theme"
    );
    assert_eq!(rels.relationships[2].target_mode, StTargetMode::Internal);
}

#[test]
fn tenth_relationship_has_a_two_digit_id() {
    let mut rels = Relationships::new();
    for _ in 0..12 {
        rels.add(RType::Worksheet, String::from("t"));
    }
    assert_eq!(rels.relationships[8].id, "rId9");
    assert_eq!(rels.relationships[9].id, "rId10");
    assert_eq!(rels.relationships[11].id, "rId12");
}

#[test]
fn two_scopes_do_not_share_their_ids() {
    let mut a = Relationships::new();
    let mut b = Relationships::new();
    a.add(RType::Style, String::from("styles.xml"));
    a.add(RType::Theme, String::from("theme/theme1.xml"));
    b.add(RType::Comments, String::from("../comments1.xml"));
    assert_eq!(b.relationships[0].id, "rId1");
    assert_eq!(a.relationships[1].id, "rId2");
}

#[test]
fn empty_relationship_part_is_still_a_part() {
    let rels = Relationships::new();
    assert_eq!(
        rels.to_xml(),
        "<?xml version=\"1.0\" encoding=\"UTF-8\" standalone=\"yes\"?>\
         <Relationships xmlns=\"http://schemas.openxmlformats.org/package/2006/relationships\">\
         </Relationships>"
    );
}

#[test]
fn relationship_part_lists_every_relationship() {
    let mut rels = Relationships::new();
    rels.add(RType::Comments, String::from("../comments2.xml"));
    rels.relationships.push(CtRelationship {
        id: String::from("rId2"),
        ty: String::from("http://example.org/link"),
        target: String::from("http://example.org/?a=1&b=2"),
        target_mode: StTargetMode::External,
    });
    assert_eq!(
        rels.to_xml(),
        "<?xml version=\"1.0\" encoding=\"UTF-8\" standalone=\"yes\"?>\
         <Relationships xmlns=\"http://schemas.openxmlformats.org/package/2006/relationships\">\
         <Relationship Id=\"rId1\" \
         Type=\"http://schemas.openxmlformats.org/officeDocument/2006/relationships/comments\" \
         Target=\"../comments2.xml\"/>\
         <Relationship Id=\"rId2\" Type=\"http://example.org/link\" \
         Target=\"http://example.org/?a=1&amp;b=2\" TargetMode=\"External\"/>\
         </Relationships>"
    );
}

#[test]
fn default_table_is_fixed() {
    let defaults = default_content_types();
    let pairs: Vec<(&str, &str)> = defaults
        .iter()
        .map(|d| (d.extension.as_str(), d.content_type.as_str()))
        .collect();
    assert_eq!(
        pairs,
        vec![
            ("bin", "application/vnd.ms-office.activeX"),
            ("emf", "image/x-emf"),
            ("jpeg", "image/jpeg"),
            ("png", "image/png"),
            ("rels", "application/vnd.openxmlformats-package.relationships+xml"),
            ("vml", "application/vnd.openxmlformats-officedocument.vmlDrawing"),
            ("wmf", "image/x-wmf"),
            ("xml", "application/xml"),
        ]
    );
}

#[test]
fn manifest_has_one_override_per_receipt() {
    let receipts = vec![
        WriteProof { path: FileLocation::from("xl/styles.xml"), rtype: RType::Style },
        WriteProof {
            path: FileLocation::from(String::from("xl/worksheets/sheet1.xml")),
            rtype: RType::Worksheet,
        },
    ];
    let manifest = ContentTypes::from_receipts(receipts);
    assert_eq!(manifest.defaults.len(), 8);
    assert_eq!(manifest.overides.len(), 2);
    assert_eq!(manifest.overides[0].part_name, "xl/styles.xml");
    assert_eq!(
        manifest.overides[0].content_type,
        "application/vnd.openxmlformats-officedocument.spreadsheetml.styles+xml"
    );
    assert_eq!(manifest.overides[1].part_name, "xl/worksheets/sheet1.xml");
    assert_eq!(
        manifest.overides[1].content_type,
        "application/vnd.openxmlformats-officedocument.spreadsheetml.worksheet+xml"
    );
}

#[test]
fn manifest_text_of_no_receipts() {
    let manifest = ContentTypes::from_receipts(Vec::new());
    assert_eq!(
        manifest.to_xml(),
        "<?xml version=\"1.0\" encoding=\"UTF-8\" standalone=\"yes\"?>\
         <Types xmlns=\"http://schemas.openxmlformats.org/package/2006/content-types\">\
         <Default Extension=\"bin\" ContentType=\"application/vnd.ms-office.activeX\"/>\
         <Default Extension=\"emf\" ContentType=\"image/x-emf\"/>\
         <Default Extension=\"jpeg\" ContentType=\"image/jpeg\"/>\
         <Default Extension=\"png\" ContentType=\"image/png\"/>\
         <Default Extension=\"rels\" \
         ContentType=\"application/vnd.openxmlformats-package.relationships+xml\"/>\
         <Default Extension=\"vml\" \
         ContentType=\"application/vnd.openxmlformats-officedocument.vmlDrawing\"/>\
         <Default Extension=\"wmf\" ContentType=\"image/x-wmf\"/>\
         <Default Extension=\"xml\" ContentType=\"application/xml\"/>\
         </Types>"
    );
}
