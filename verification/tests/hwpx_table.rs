use rhwp::model::control::{Cell, CellZone, Table, TablePageBreak};
use rhwp::model::shape::{CommonObjAttr, Padding};
use rhwp::serializer::hwpx::table::{
    write_cell_addr, write_cell_margin, write_cell_span, write_cell_sz, write_cellzone_list,
    write_in_margin, write_out_margin,
};
use rhwp::serializer::hwpx::xml::{render_xml, XmlWriter};

fn table(zones: Vec<CellZone>) -> Table {
    Table {
        page_break: TablePageBreak::CellBreak,
        common: CommonObjAttr::default(),
        outer_margin_left: 283,
        outer_margin_right: -283,
        outer_margin_top: 0,
        outer_margin_bottom: 141,
        padding: Padding { left: 510, right: 510, top: 141, bottom: 141 },
        zones,
        cells: vec![],
        caption: None,
    }
}

fn render(f: impl Fn(&mut XmlWriter)) -> String {
    let mut w = XmlWriter::new();
    f(&mut w);
    render_xml(&w)
}

#[test]
fn table_margins() {
    let t = table(vec![]);
    assert_eq!(
        render(|w| write_out_margin(w, &t)),
        r#"<hp:outMargin left="283" right="-283" top="0" bottom="141"/>"#
    );
    assert_eq!(
        render(|w| write_in_margin(w, &t)),
        r#"<hp:inMargin left="510" right="510" top="141" bottom="141"/>"#
    );
}

#[test]
fn cell_zone_list_only_with_zones() {
    assert_eq!(render(|w| write_cellzone_list(w, &table(vec![]))), "");
    let t = table(vec![
        CellZone { start_row: 0, start_col: 1, end_row: 2, end_col: 3, border_fill_id: 4 },
        CellZone { start_row: 5, start_col: 5, end_row: 5, end_col: 5, border_fill_id: 65535 },
    ]);
    assert_eq!(
        render(|w| write_cellzone_list(w, &t)),
        [
            r#"<hp:cellzoneList>"#,
            r#"<hp:cellzone startRowAddr="0" startColAddr="1" endRowAddr="2" endColAddr="3" borderFillIDRef="4"/>"#,
            r#"<hp:cellzone startRowAddr="5" startColAddr="5" endRowAddr="5" endColAddr="5" borderFillIDRef="65535"/>"#,
            r#"</hp:cellzoneList>"#
        ].concat()
    );
}

#[test]
fn cell_address_span_size_and_margin() {
    let mut cell = Cell {
        row: 2,
        col: 7,
        row_span: 0,
        col_span: 3,
        width: 8504,
        height: 282,
        padding: Padding { left: 141, right: 141, top: -1, bottom: 0 },
        paragraphs: vec![],
    };
    assert_eq!(render(|w| write_cell_addr(w, &cell)), r#"<hp:cellAddr colAddr="7" rowAddr="2"/>"#);
    // a span of 0 is written as 1
    assert_eq!(render(|w| write_cell_span(w, &cell)), r#"<hp:cellSpan colSpan="3" rowSpan="1"/>"#);
    cell.row_span = 2;
    assert_eq!(render(|w| write_cell_span(w, &cell)), r#"<hp:cellSpan colSpan="3" rowSpan="2"/>"#);
    assert_eq!(render(|w| write_cell_sz(w, &cell)), r#"<hp:cellSz width="8504" height="282"/>"#);
    assert_eq!(
        render(|w| write_cell_margin(w, &cell)),
        r#"<hp:cellMargin left="141" right="141" top="-1" bottom="0"/>"#
    );
}
