use rhwp::model::control::{Bookmark, Field, FieldType, Hyperlink};
use rhwp::serializer::hwpx::field::{
    write_bookmark, write_endnote_close, write_endnote_open, write_field_begin, write_field_end,
    write_field_end_full, write_footnote_close, write_footnote_open, write_hyperlink_begin,
};
use rhwp::serializer::hwpx::xml::{attr_str, empty_tag, end_tag, render_xml, start_tag_attrs, text, XmlWriter};

fn field(id: u32, ty: FieldType, name: Option<&str>, editable: bool) -> Field {
    Field {
        field_id: id,
        field_type: ty,
        ctrl_data_name: name.map(|n| n.to_string()),
        editable_in_form: editable,
        raw_parameters_xml: None,
        memo_paragraphs: vec![],
    }
}

#[test]
fn bookmark_name_is_escaped() {
    let mut w = XmlWriter::new();
    write_bookmark(&mut w, &Bookmark { name: "a&b<\"c\"".to_string() });
    assert_eq!(render_xml(&w), r#"<hp:bookmark name="a&amp;b&lt;&quot;c&quot;"/>"#);
}

#[test]
fn field_begin_and_end_markers() {
    let mut w = XmlWriter::new();
    write_field_begin(&mut w, &field(5, FieldType::ClickHere, Some("x'y"), true));
    write_field_end(&mut w, 5);
    write_field_begin(&mut w, &field(0, FieldType::TableOfContents, None, false));
    assert_eq!(
        render_xml(&w),
        [
            r#"<hp:fieldBegin id="5" type="CLICK_HERE" name="x&apos;y" editable="1"/>"#,
            r#"<hp:fieldEnd beginIDRef="5"/>"#,
            r#"<hp:fieldBegin id="0" type="TOC" name="" editable="0"/>"#
        ].concat()
    );
}

#[test]
fn field_end_full_omits_a_zero_field_id() {
    let mut w = XmlWriter::new();
    write_field_end_full(&mut w, 3, 0);
    write_field_end_full(&mut w, 3, 4294967295);
    assert_eq!(
        render_xml(&w),
        r#"<hp:fieldEnd beginIDRef="3"/><hp:fieldEnd beginIDRef="3" fieldid="4294967295"/>"#
    );
}

#[test]
fn hyperlink_begin_carries_the_address() {
    let mut w = XmlWriter::new();
    write_hyperlink_begin(&mut w, &Hyperlink { url: "http://a.b/?x=1&y=2".to_string() }, 12);
    assert_eq!(
        render_xml(&w),
        r#"<hp:fieldBegin id="12" type="HYPERLINK" name="" editable="0" command="http://a.b/?x=1&amp;y=2"/>"#
    );
}

#[test]
fn note_frames() {
    let mut w = XmlWriter::new();
    write_footnote_open(&mut w, 2);
    write_footnote_close(&mut w);
    write_endnote_open(&mut w, 65535);
    write_endnote_close(&mut w);
    assert_eq!(
        render_xml(&w),
        r#"<hp:fn><hp:autoNum num="2"/></hp:fn><hp:en><hp:autoNum num="65535"/></hp:en>"#
    );
}

#[test]
fn text_and_attribute_escaping_follow_the_writer() {
    let mut w = XmlWriter::new();
    start_tag_attrs(&mut w, "p", vec![attr_str("v", "a\tb\nc\rd 'e'")]);
    text(&mut w, "1 < 2 & \"q\" 'a'\r\n\t>");
    end_tag(&mut w, "p");
    empty_tag(&mut w, "e", vec![]);
    assert_eq!(
        render_xml(&w),
        "<p v=\"a&#9;b&#10;c&#13;d &apos;e&apos;\">1 &lt; 2 &amp; &quot;q&quot; &apos;a&apos;&#13;\n\t&gt;</p><e/>"
    );
}
