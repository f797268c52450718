//! Tables in HWPX: the child elements of `<hp:tbl>` and `<hp:tc>` that
//! carry a table's margins and cell zones and a cell's address, span, size
//! and margins.

use crate::model::control::{Cell, CellZone, Table};
use crate::serializer::hwpx::xml::{
    attr, attrs_view, dec, empty_tag, end_tag, sdec, start_tag, XmlItem, XmlWriter,
};
use crate::text::{decimal, signed_decimal};
use vstd::prelude::*;

verus! {

/// `<hp:outMargin left right top bottom/>` of a table.
pub fn write_out_margin(w: &mut XmlWriter, t: &Table)
    ensures
        final(w)@ == old(w)@.push(
            XmlItem::Empty(
                "hp:outMargin"@,
                seq![
                    ("left"@, signed_decimal(t.outer_margin_left as int)),
                    ("right"@, signed_decimal(t.outer_margin_right as int)),
                    ("top"@, signed_decimal(t.outer_margin_top as int)),
                    ("bottom"@, signed_decimal(t.outer_margin_bottom as int)),
                ],
            ),
        ),
{
    let attrs = vec![
        attr("left", sdec(t.outer_margin_left as i64)),
        attr("right", sdec(t.outer_margin_right as i64)),
        attr("top", sdec(t.outer_margin_top as i64)),
        attr("bottom", sdec(t.outer_margin_bottom as i64)),
    ];
    proof {
        assert(attrs_view(attrs@) =~= seq![
            ("left"@, signed_decimal(t.outer_margin_left as int)),
            ("right"@, signed_decimal(t.outer_margin_right as int)),
            ("top"@, signed_decimal(t.outer_margin_top as int)),
            ("bottom"@, signed_decimal(t.outer_margin_bottom as int)),
        ]);
    }
    empty_tag(w, "hp:outMargin", attrs);
}

/// `<hp:inMargin left right top bottom/>` of a table: the default cell margins.
pub fn write_in_margin(w: &mut XmlWriter, t: &Table)
    ensures
        final(w)@ == old(w)@.push(
            XmlItem::Empty(
                "hp:inMargin"@,
                seq![
                    ("left"@, signed_decimal(t.padding.left as int)),
                    ("right"@, signed_decimal(t.padding.right as int)),
                    ("top"@, signed_decimal(t.padding.top as int)),
                    ("bottom"@, signed_decimal(t.padding.bottom as int)),
                ],
            ),
        ),
{
    let attrs = vec![
        attr("left", sdec(t.padding.left as i64)),
        attr("right", sdec(t.padding.right as i64)),
        attr("top", sdec(t.padding.top as i64)),
        attr("bottom", sdec(t.padding.bottom as i64)),
    ];
    proof {
        assert(attrs_view(attrs@) =~= seq![
            ("left"@, signed_decimal(t.padding.left as int)),
            ("right"@, signed_decimal(t.padding.right as int)),
            ("top"@, signed_decimal(t.padding.top as int)),
            ("bottom"@, signed_decimal(t.padding.bottom as int)),
        ]);
    }
    empty_tag(w, "hp:inMargin", attrs);
}

/// `<hp:cellzone .../>` of one zone.
pub open spec fn zone_item(z: CellZone) -> XmlItem {
    XmlItem::Empty(
        "hp:cellzone"@,
        seq![
            ("startRowAddr"@, decimal(z.start_row as nat)),
            ("startColAddr"@, decimal(z.start_col as nat)),
            ("endRowAddr"@, decimal(z.end_row as nat)),
            ("endColAddr"@, decimal(z.end_col as nat)),
            ("borderFillIDRef"@, decimal(z.border_fill_id as nat)),
        ],
    )
}

/// The cell zone list of a table: nothing when it has no zones, else the
/// list with one element per zone, in order.
pub open spec fn cellzone_items(zones: Seq<CellZone>) -> Seq<XmlItem> {
    if zones.len() == 0 {
        Seq::empty()
    } else {
        seq![XmlItem::Start("hp:cellzoneList"@, Seq::empty())] + zones.map_values(
            |z: CellZone| zone_item(z),
        ) + seq![XmlItem::End("hp:cellzoneList"@)]
    }
}

/// `<hp:cellzoneList>` with a `<hp:cellzone>` per zone; nothing when the
/// table has no zones.
pub fn write_cellzone_list(w: &mut XmlWriter, t: &Table)
    ensures
        final(w)@ == old(w)@ + cellzone_items(t.zones@),
{
    if t.zones.len() == 0 {
        assert(old(w)@ + cellzone_items(t.zones@) =~= old(w)@);
        return;
    }
    start_tag(w, "hp:cellzoneList");
    let ghost w1 = w@;
    for i in 0..t.zones.len()
        invariant
            w@ == w1 + t.zones@.take(i as int).map_values(|z: CellZone| zone_item(z)),
    {
        let z = t.zones[i];
        let attrs = vec![
            attr("startRowAddr", dec(z.start_row as u64)),
            attr("startColAddr", dec(z.start_col as u64)),
            attr("endRowAddr", dec(z.end_row as u64)),
            attr("endColAddr", dec(z.end_col as u64)),
            attr("borderFillIDRef", dec(z.border_fill_id as u64)),
        ];
        proof {
            assert(attrs_view(attrs@) =~= seq![
                ("startRowAddr"@, decimal(z.start_row as nat)),
                ("startColAddr"@, decimal(z.start_col as nat)),
                ("endRowAddr"@, decimal(z.end_row as nat)),
                ("endColAddr"@, decimal(z.end_col as nat)),
                ("borderFillIDRef"@, decimal(z.border_fill_id as nat)),
            ]);
        }
        empty_tag(w, "hp:cellzone", attrs);
        proof {
            assert(t.zones@.take(i + 1).map_values(|z: CellZone| zone_item(z)) =~= t.zones@.take(
                i as int,
            ).map_values(|z: CellZone| zone_item(z)).push(zone_item(z)));
        }
    }
    assert(t.zones@.take(t.zones@.len() as int) =~= t.zones@);
    end_tag(w, "hp:cellzoneList");
    assert(w@ =~= old(w)@ + cellzone_items(t.zones@));
}

/// `<hp:cellAddr colAddr rowAddr/>`.
pub fn write_cell_addr(w: &mut XmlWriter, cell: &Cell)
    ensures
        final(w)@ == old(w)@.push(
            XmlItem::Empty(
                "hp:cellAddr"@,
                seq![("colAddr"@, decimal(cell.col as nat)), ("rowAddr"@, decimal(cell.row as nat))],
            ),
        ),
{
    let attrs = vec![attr("colAddr", dec(cell.col as u64)), attr("rowAddr", dec(cell.row as u64))];
    proof {
        assert(attrs_view(attrs@) =~= seq![
            ("colAddr"@, decimal(cell.col as nat)),
            ("rowAddr"@, decimal(cell.row as nat)),
        ]);
    }
    empty_tag(w, "hp:cellAddr", attrs);
}

/// A span as written: at least 1.
pub open spec fn span_at_least_one(s: u16) -> nat {
    if s < 1 {
        1
    } else {
        s as nat
    }
}

/// `<hp:cellSpan colSpan rowSpan/>`, each span at least 1.
pub fn write_cell_span(w: &mut XmlWriter, cell: &Cell)
    ensures
        final(w)@ == old(w)@.push(
            XmlItem::Empty(
                "hp:cellSpan"@,
                seq![
                    ("colSpan"@, decimal(span_at_least_one(cell.col_span))),
                    ("rowSpan"@, decimal(span_at_least_one(cell.row_span))),
                ],
            ),
        ),
{
    let cs: u16 = if cell.col_span < 1 {
        1
    } else {
        cell.col_span
    };
    let rs: u16 = if cell.row_span < 1 {
        1
    } else {
        cell.row_span
    };
    let attrs = vec![attr("colSpan", dec(cs as u64)), attr("rowSpan", dec(rs as u64))];
    proof {
        assert(attrs_view(attrs@) =~= seq![
            ("colSpan"@, decimal(span_at_least_one(cell.col_span))),
            ("rowSpan"@, decimal(span_at_least_one(cell.row_span))),
        ]);
    }
    empty_tag(w, "hp:cellSpan", attrs);
}

/// `<hp:cellSz width height/>`.
pub fn write_cell_sz(w: &mut XmlWriter, cell: &Cell)
    ensures
        final(w)@ == old(w)@.push(
            XmlItem::Empty(
                "hp:cellSz"@,
                seq![
                    ("width"@, decimal(cell.width as nat)),
                    ("height"@, decimal(cell.height as nat)),
                ],
            ),
        ),
{
    let attrs = vec![attr("width", dec(cell.width as u64)), attr("height", dec(cell.height as u64))];
    proof {
        assert(attrs_view(attrs@) =~= seq![
            ("width"@, decimal(cell.width as nat)),
            ("height"@, decimal(cell.height as nat)),
        ]);
    }
    empty_tag(w, "hp:cellSz", attrs);
}

/// `<hp:cellMargin left right top bottom/>`.
pub fn write_cell_margin(w: &mut XmlWriter, cell: &Cell)
    ensures
        final(w)@ == old(w)@.push(
            XmlItem::Empty(
                "hp:cellMargin"@,
                seq![
                    ("left"@, signed_decimal(cell.padding.left as int)),
                    ("right"@, signed_decimal(cell.padding.right as int)),
                    ("top"@, signed_decimal(cell.padding.top as int)),
                    ("bottom"@, signed_decimal(cell.padding.bottom as int)),
                ],
            ),
        ),
{
    let attrs = vec![
        attr("left", sdec(cell.padding.left as i64)),
        attr("right", sdec(cell.padding.right as i64)),
        attr("top", sdec(cell.padding.top as i64)),
        attr("bottom", sdec(cell.padding.bottom as i64)),
    ];
    proof {
        assert(attrs_view(attrs@) =~= seq![
            ("left"@, signed_decimal(cell.padding.left as int)),
            ("right"@, signed_decimal(cell.padding.right as int)),
            ("top"@, signed_decimal(cell.padding.top as int)),
            ("bottom"@, signed_decimal(cell.padding.bottom as int)),
        ]);
    }
    empty_tag(w, "hp:cellMargin", attrs);
}

} // verus!
