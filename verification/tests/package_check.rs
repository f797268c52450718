use rhwp::model::document::{BinDataContent, DocInfo, Document, MasterPage, Section, SectionDef};
use rhwp::model::page::{BindingMethod, PageDef};
use rhwp::serializer::hwpx::package_check::{check_container_rdf, check_package, PackageCheckReport};
use rhwp::serializer::hwpx::context::BinDataEntry;
use rhwp::serializer::hwpx::{assert_bin_data_3way, write_container_rdf, SerializeError};
use std::io::{Cursor, Write};
use zip::write::SimpleFileOptions;
use zip::CompressionMethod;

fn section(masters: usize) -> Section {
    Section {
        section_def: SectionDef {
            page_def: PageDef {
                width: 59528,
                height: 84188,
                margin_left: 8504,
                margin_right: 8504,
                margin_top: 5668,
                margin_bottom: 4252,
                margin_header: 4252,
                margin_footer: 4252,
                margin_gutter: 0,
                landscape: false,
                binding: BindingMethod::SingleSided,
            },
            hide_header: false,
            hide_footer: false,
            hide_master_page: false,
            hide_border: false,
            hide_fill: false,
            hide_empty_line: false,
            master_pages: (0..masters).map(|_| MasterPage { paragraphs: vec![] }).collect(),
        },
        paragraphs: vec![],
    }
}

fn doc(sections: Vec<Section>, bin_exts: &[&str]) -> Document {
    Document {
        sections,
        doc_info: DocInfo {
            char_shapes: 1,
            para_shapes: 1,
            border_fills: 1,
            tab_defs: 1,
            numberings: 0,
            styles: 1,
        },
        bin_data_content: bin_exts
            .iter()
            .enumerate()
            .map(|(i, e)| BinDataContent { id: i as u16 + 1, extension: e.to_string() })
            .collect(),
        track_changes: vec![],
        next_track_id: 0,
    }
}

fn package(entries: &[(&str, Vec<u8>, bool)]) -> Vec<u8> {
    let mut w = zip::ZipWriter::new(Cursor::new(Vec::new()));
    for (name, data, stored) in entries {
        let method = if *stored { CompressionMethod::Stored } else { CompressionMethod::Deflated };
        w.start_file(*name, SimpleFileOptions::default().compression_method(method)).unwrap();
        w.write_all(data).unwrap();
    }
    w.finish().unwrap().into_inner()
}

const HPF: &str = r#"<opf:manifest><opf:item id="header" href="Contents/header.xml"/><opf:item id="section0" href="Contents/section0.xml"/><opf:item id="masterpage0" href="Contents/masterpage0.xml"/><opf:item id="image1" href="BinData/image1.png" isEmbeded="1"/><opf:item id="image2" href="../outside.png" isEmbeded="0"/></opf:manifest>"#;

fn good_entries() -> Vec<(&'static str, Vec<u8>, bool)> {
    let rdf = write_container_rdf(&["Contents/section0.xml".to_string()]);
    vec![
        ("mimetype", b"application/hwp+zip".to_vec(), true),
        ("version.xml", b"<v/>".to_vec(), false),
        ("Contents/header.xml", b"<h/>".to_vec(), false),
        ("Contents/content.hpf", HPF.as_bytes().to_vec(), false),
        ("Preview/PrvText.txt", b"".to_vec(), false),
        ("Preview/PrvImage.png", b"png".to_vec(), false),
        ("settings.xml", b"<s/>".to_vec(), false),
        ("META-INF/container.xml", b"<c/>".to_vec(), false),
        ("META-INF/container.rdf", rdf.into_bytes(), false),
        ("META-INF/manifest.xml", b"<m/>".to_vec(), false),
        (
            "Contents/section0.xml",
            br#"<hs:sec><hp:masterPage masterPageCnt="1" idRef="masterpage0"/></hs:sec>"#.to_vec(),
            false,
        ),
        ("Contents/masterpage0.xml", b"<mp/>".to_vec(), false),
        ("BinData/image1.png", b"\x89PNG".to_vec(), true),
    ]
}

#[test]
fn well_formed_package_passes() {
    let bytes = package(&good_entries());
    let report = check_package(&bytes, &doc(vec![section(1)], &["PNG"]));
    assert!(report.is_ok(), "{}", report.summary());
    assert_eq!(report.summary(), "");
}

#[test]
fn bytes_that_are_no_zip_give_one_problem() {
    let report = check_package(b"not a zip at all", &doc(vec![section(0)], &[]));
    assert_eq!(report.problems.len(), 1);
    assert!(report.problems[0].starts_with("ZIP 열기 실패: "));
}

#[test]
fn compressed_or_wrong_mimetype_is_reported() {
    let mut entries = good_entries();
    entries[0] = ("mimetype", b"application/zip".to_vec(), false);
    let report = check_package(&package(&entries), &doc(vec![section(1)], &["png"]));
    assert_eq!(
        report.problems,
        vec![
            "mimetype 압축 방식이 STORED 가 아님: Deflated".to_string(),
            "mimetype 내용 불일치: \"application/zip\"".to_string(),
        ]
    );
}

#[test]
fn mimetype_must_come_first() {
    let mut entries = good_entries();
    entries.swap(0, 1);
    let report = check_package(&package(&entries), &doc(vec![section(1)], &["png"]));
    assert_eq!(report.problems, vec!["mimetype 이 최초 엔트리가 아님 (첫 엔트리: version.xml)".to_string()]);
}

#[test]
fn missing_and_extra_parts_are_reported() {
    let mut entries = good_entries();
    entries.retain(|(n, _, _)| *n != "settings.xml" && *n != "Contents/masterpage0.xml");
    entries.push(("Contents/section7.xml", b"<x/>".to_vec(), false));
    let report = check_package(&package(&entries), &doc(vec![section(1)], &["png"]));
    assert_eq!(
        report.problems,
        vec![
            "필수 엔트리 누락: settings.xml".to_string(),
            "섹션 엔트리 수 불일치: zip=2 ir=1".to_string(),
            "content.hpf 참조 엔트리 누락: Contents/masterpage0.xml".to_string(),
            "바탕쪽 엔트리 수 불일치: zip=0 ir=1".to_string(),
            "바탕쪽 엔트리 누락: Contents/masterpage0.xml".to_string(),
        ]
    );
}

#[test]
fn second_section_missing_everywhere() {
    let report = check_package(&package(&good_entries()), &doc(vec![section(1), section(0)], &["png"]));
    assert_eq!(
        report.problems,
        vec![
            "섹션 엔트리 누락: Contents/section1.xml (IR 섹션 1)".to_string(),
            "섹션 엔트리 수 불일치: zip=1 ir=2".to_string(),
            "container.rdf 섹션 참조 누락: Contents/section1.xml".to_string(),
            "container.rdf 섹션 참조 수 불일치: rdf=1 ir=2".to_string(),
        ]
    );
}

#[test]
fn master_page_references_are_checked() {
    let mut entries = good_entries();
    entries[10] = ("Contents/section0.xml", br#"<hs:sec masterPageCnt="2"/>"#.to_vec(), false);
    let report = check_package(&package(&entries), &doc(vec![section(1)], &["png"]));
    assert_eq!(
        report.problems,
        vec![
            "section0 masterPageCnt 불일치: expected 1".to_string(),
            "section0 바탕쪽 idRef 누락: masterpage0".to_string(),
        ]
    );
}

#[test]
fn binary_parts_are_compared_by_number_and_extension() {
    let entries = good_entries();
    let report = check_package(&package(&entries), &doc(vec![section(1)], &["JPG"]));
    assert_eq!(
        report.problems,
        vec!["BinData 확장자 멀티셋 불일치: zip=[\"png\"] ir=[\"jpg\"]".to_string()]
    );
    let report = check_package(&package(&entries), &doc(vec![section(1)], &["png", "bmp"]));
    assert_eq!(report.problems, vec!["BinData 엔트리 수 불일치: zip=1 ir=2".to_string()]);
}

#[test]
fn container_rdf_lists_header_and_sections() {
    let rdf = write_container_rdf(&["Contents/section0.xml".to_string(), "Contents/section1.xml".to_string()]);
    assert!(rdf.starts_with(r#"<?xml version="1.0" encoding="UTF-8" standalone="yes" ?><rdf:RDF"#));
    assert!(rdf.contains(r#"rdf:resource="Contents/header.xml""#));
    assert!(rdf.contains(r#"<rdf:Description rdf:about="Contents/section1.xml"><rdf:type rdf:resource="http://www.hancom.co.kr/hwpml/2016/meta/pkg#SectionFile"/></rdf:Description>"#));
    assert!(rdf.ends_with(r#"<rdf:type rdf:resource="http://www.hancom.co.kr/hwpml/2016/meta/pkg#Document"/></rdf:Description></rdf:RDF>"#));
    assert_eq!(rdf.matches("rdf:resource=").count(), 7);
}

#[test]
fn written_container_rdf_passes_its_check() {
    let hrefs: Vec<String> = (0..3).map(|i| format!("Contents/section{}.xml", i)).collect();
    let rdf = write_container_rdf(&hrefs);
    let d = doc(vec![section(0), section(0), section(0)], &[]);
    let mut report = PackageCheckReport::new();
    check_container_rdf(&mut report, &rdf, &d);
    assert!(report.problems.is_empty(), "{:?}", report.problems);

    let short = write_container_rdf(&hrefs[..2]);
    let mut report = PackageCheckReport::new();
    check_container_rdf(&mut report, &short, &d);
    assert_eq!(
        report.problems,
        vec![
            "container.rdf 섹션 참조 누락: Contents/section2.xml".to_string(),
            "container.rdf 섹션 참조 수 불일치: rdf=2 ir=3".to_string(),
        ]
    );
}

fn entry(href: &str, is_embedded: bool) -> BinDataEntry {
    BinDataEntry { href: href.to_string(), is_embedded }
}

#[test]
fn bin_data_three_way_sets_must_agree() {
    let entries = vec![
        entry("BinData/image1.png", true),
        entry("BinData/image2.jpg", false),
        entry("BinData/image1.png", true),
    ];
    assert!(assert_bin_data_3way(&entries, &vec!["BinData/image1.png".to_string()]).is_ok());
    let more = vec![entry("BinData/image1.png", true), entry("BinData/image3.png", true)];
    let zip = vec!["BinData/image1.png".to_string(), "BinData/x.bmp".to_string()];
    match assert_bin_data_3way(&more, &zip) {
        Err(SerializeError::XmlError(m)) => assert_eq!(
            m,
            "3-way BinData 불일치: ctx(href) vs zip_entries — ctx에만 있음: [\"BinData/image3.png\"], zip에만 있음: [\"BinData/x.bmp\"]"
        ),
        Ok(()) => panic!("a mismatch must be reported"),
    }
    match assert_bin_data_3way(&vec![], &zip) {
        Err(SerializeError::XmlError(m)) => assert!(m.ends_with("ctx에만 있음: [], zip에만 있음: [\"BinData/image1.png\", \"BinData/x.bmp\"]"), "{}", m),
        Ok(()) => panic!("a mismatch must be reported"),
    }
}
