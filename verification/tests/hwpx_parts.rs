use rhwp::model::control::{Field, FieldType};
use rhwp::model::document::{DocInfo, Document, Section, SectionDef};
use rhwp::model::page::{BindingMethod, PageDef};
use rhwp::serializer::hwpx::field::field_begin_open_tag;
use rhwp::serializer::hwpx::package_check::{
    check_container_rdf, extension_lower, extract_hrefs, extract_rdf_resources,
    is_master_page_entry_name, is_section_entry_name, PackageCheckReport,
};

fn doc_with_sections(n: usize) -> Document {
    let page_def = PageDef {
        width: 59528,
        height: 84188,
        margin_left: 0,
        margin_right: 0,
        margin_top: 0,
        margin_bottom: 0,
        margin_header: 0,
        margin_footer: 0,
        margin_gutter: 0,
        landscape: false,
        binding: BindingMethod::SingleSided,
    };
    let sections = (0..n)
        .map(|_| Section {
            section_def: SectionDef {
                page_def,
                hide_header: false,
                hide_footer: false,
                hide_master_page: false,
                hide_border: false,
                hide_fill: false,
                hide_empty_line: false,
                master_pages: vec![],
            },
            paragraphs: vec![],
        })
        .collect();
    Document {
        sections,
        doc_info: DocInfo { char_shapes: 0, para_shapes: 0, border_fills: 0, tab_defs: 0, numberings: 0, styles: 0 },
        bin_data_content: vec![],
        track_changes: vec![],
        next_track_id: 0,
    }
}

#[test]
fn field_begin_tag_escapes_name() {
    let field = Field {
        field_id: 12,
        field_type: FieldType::ClickHere,
        ctrl_data_name: Some("a<b>&\"c\"".to_string()),
        editable_in_form: true,
        raw_parameters_xml: None,
        memo_paragraphs: vec![],
    };
    assert_eq!(
        field_begin_open_tag(&field),
        "<hp:fieldBegin id=\"12\" type=\"CLICK_HERE\" name=\"a&lt;b&gt;&amp;&quot;c&quot;\" editable=\"1\""
    );
    let plain = Field {
        field_id: 0,
        field_type: FieldType::PrivateInfoSecurity,
        ctrl_data_name: None,
        editable_in_form: false,
        raw_parameters_xml: None,
        memo_paragraphs: vec![],
    };
    assert_eq!(
        field_begin_open_tag(&plain),
        "<hp:fieldBegin id=\"0\" type=\"PRIVATE_INFO\" name=\"\" editable=\"0\""
    );
}

#[test]
fn entry_name_rules() {
    assert!(is_section_entry_name("Contents/section0.xml"));
    assert!(is_section_entry_name("Contents/section12.xml"));
    assert!(!is_section_entry_name("Contents/section.xml"));
    assert!(!is_section_entry_name("Contents/sectionA.xml"));
    assert!(!is_section_entry_name("Contents/section1.xml.bak"));
    assert!(is_master_page_entry_name("Contents/masterpage3.xml"));
    assert!(!is_master_page_entry_name("Contents/section3.xml"));
}

#[test]
fn manifest_hrefs_skip_external_items() {
    let hpf = "<opf:item id=\"a\" href=\"Contents/section0.xml\"/><opf:item href=\"BinData/x.png\" isEmbeded=\"0\"/><opf:item id=\"b\" href=\"BinData/image1.png\" isEmbeded=\"1\"/><broken href=\"x\"";
    assert_eq!(extract_hrefs(hpf), vec!["Contents/section0.xml".to_string(), "BinData/image1.png".to_string()]);
}

#[test]
fn rdf_resources_and_extensions() {
    let rdf = "<a rdf:resource=\"Contents/header.xml\"/><b rdf:resource=\"X\"/><c rdf:resource=\"open";
    assert_eq!(extract_rdf_resources(rdf), vec!["Contents/header.xml".to_string(), "X".to_string()]);
    assert_eq!(extension_lower("BinData/Image1.PNG"), "png");
    assert_eq!(extension_lower("a.b.JpG"), "jpg");
    assert_eq!(extension_lower("noext"), "");
}

#[test]
fn container_rdf_checks_every_section() {
    let good = "<rdf:Description rdf:about=\"\"><ns0:hasPart rdf:resource=\"Contents/header.xml\"/></rdf:Description><rdf:Description rdf:about=\"Contents/header.xml\"/><x rdf:resource=\"Contents/section0.xml\"/><rdf:Description rdf:about=\"Contents/section0.xml\"/>";
    let mut report = PackageCheckReport::new();
    check_container_rdf(&mut report, good, &doc_with_sections(1));
    assert!(report.is_ok());
    assert_eq!(report.summary(), "");

    let mut report = PackageCheckReport::new();
    check_container_rdf(&mut report, good, &doc_with_sections(2));
    assert!(!report.is_ok());
    assert_eq!(
        report.problems,
        vec![
            "container.rdf 섹션 참조 누락: Contents/section1.xml".to_string(),
            "container.rdf 섹션 참조 수 불일치: rdf=1 ir=2".to_string(),
        ]
    );
    assert_eq!(
        report.summary(),
        "container.rdf 섹션 참조 누락: Contents/section1.xml; container.rdf 섹션 참조 수 불일치: rdf=1 ir=2"
    );

    let mut report = PackageCheckReport::new();
    check_container_rdf(&mut report, "", &doc_with_sections(0));
    assert_eq!(report.problems, vec!["container.rdf header 참조 누락".to_string()]);
}
