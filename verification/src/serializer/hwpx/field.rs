//! Field controls in HWPX: bookmarks, field begin and end markers,
//! hyperlinks, and the frames of footnotes and endnotes.

use crate::model::control::{Bookmark, Field, FieldType, Hyperlink};
use crate::serializer::hwpx::xml::{
    attr, attr_str, attrs_view, dec, empty_tag, end_tag, start_tag, XmlItem, XmlWriter,
};
use crate::text::{decimal, push_decimal, string_of, string_push, string_push_str};
use vstd::prelude::*;

verus! {

/// The name a field type is written with.
pub open spec fn field_type_name(t: FieldType) -> Seq<char> {
    match t {
        FieldType::Unknown => "UNKNOWN"@,
        FieldType::Date => "DATE"@,
        FieldType::DocDate => "DOCDATE"@,
        FieldType::Path => "PATH"@,
        FieldType::Bookmark => "BOOKMARK"@,
        FieldType::MailMerge => "MAILMERGE"@,
        FieldType::CrossRef => "CROSSREF"@,
        FieldType::Formula => "FORMULA"@,
        FieldType::ClickHere => "CLICK_HERE"@,
        FieldType::Summary => "SUMMARY"@,
        FieldType::UserInfo => "USERINFO"@,
        FieldType::Hyperlink => "HYPERLINK"@,
        FieldType::Memo => "MEMO"@,
        FieldType::PrivateInfoSecurity => "PRIVATE_INFO"@,
        FieldType::TableOfContents => "TOC"@,
    }
}

fn field_type_str(t: FieldType) -> (r: &'static str)
    ensures
        r@ == field_type_name(t),
{
    match t {
        FieldType::Unknown => "UNKNOWN",
        FieldType::Date => "DATE",
        FieldType::DocDate => "DOCDATE",
        FieldType::Path => "PATH",
        FieldType::Bookmark => "BOOKMARK",
        FieldType::MailMerge => "MAILMERGE",
        FieldType::CrossRef => "CROSSREF",
        FieldType::Formula => "FORMULA",
        FieldType::ClickHere => "CLICK_HERE",
        FieldType::Summary => "SUMMARY",
        FieldType::UserInfo => "USERINFO",
        FieldType::Hyperlink => "HYPERLINK",
        FieldType::Memo => "MEMO",
        FieldType::PrivateInfoSecurity => "PRIVATE_INFO",
        FieldType::TableOfContents => "TOC",
    }
}

/// `1` or `0`.
pub open spec fn bool01_text(b: bool) -> Seq<char> {
    if b {
        "1"@
    } else {
        "0"@
    }
}

pub(crate) fn bool01(b: bool) -> (r: &'static str)
    ensures
        r@ == bool01_text(b),
{
    if b {
        "1"
    } else {
        "0"
    }
}

/// One character of an attribute value, escaped.
pub open spec fn attr_char(c: char) -> Seq<char> {
    if c == '&' {
        "&amp;"@
    } else if c == '<' {
        "&lt;"@
    } else if c == '>' {
        "&gt;"@
    } else if c == '"' {
        "&quot;"@
    } else {
        seq![c]
    }
}

/// An attribute value with `&`, `<`, `>` and `"` escaped.
pub open spec fn attr_escape(s: Seq<char>) -> Seq<char>
    decreases s.len(),
{
    if s.len() == 0 {
        Seq::empty()
    } else {
        attr_escape(s.drop_last()) + attr_char(s.last())
    }
}

fn push_attr_char(out: &mut String, c: char)
    ensures
        final(out)@ == old(out)@ + attr_char(c),
{
    if c == '&' {
        string_push_str(out, "&amp;");
    } else if c == '<' {
        string_push_str(out, "&lt;");
    } else if c == '>' {
        string_push_str(out, "&gt;");
    } else if c == '"' {
        string_push_str(out, "&quot;");
    } else {
        string_push(out, c);
    }
}

fn xml_escape_attr(s: &str) -> (r: String)
    ensures
        r@ == attr_escape(s@),
{
    let mut out = String::new();
    for c in it: s.chars()
        invariant
            it.seq() == s@,
            out@ == attr_escape(it.seq().take(it.index() as int)),
    {
        let ghost k = it.index() as int;
        push_attr_char(&mut out, c);
        proof {
            assert(s@.take(k + 1).drop_last() == s@.take(k));
            assert(s@.take(k + 1).last() == c);
        }
    }
    proof {
        assert(s@.take(s@.len() as int) == s@);
    }
    out
}

/// The opening `<hp:fieldBegin` tag of a field with its attributes, without
/// the closing `/>` or `>`.
pub open spec fn field_begin_tag(field: Field) -> Seq<char> {
    "<hp:fieldBegin id=\""@ + decimal(field.field_id as nat) + "\" type=\""@ + field_type_name(
        field.field_type,
    ) + "\" name=\""@ + attr_escape(
        match field.ctrl_data_name {
            Some(n) => n@,
            None => Seq::empty(),
        },
    ) + "\" editable=\""@ + bool01_text(field.editable_in_form) + "\""@
}

/// Builds the opening `<hp:fieldBegin` tag (the caller closes it, with
/// children when the field has parameters or a memo).
pub fn field_begin_open_tag(field: &Field) -> (r: String)
    ensures
        r@ == field_begin_tag(*field),
{
    let name = match &field.ctrl_data_name {
        Some(n) => xml_escape_attr(n.as_str()),
        None => xml_escape_attr(""),
    };
    proof {
        reveal_strlit("");
    }
    let mut out = string_of("<hp:fieldBegin id=\"");
    push_decimal(&mut out, field.field_id as u64);
    string_push_str(&mut out, "\" type=\"");
    string_push_str(&mut out, field_type_str(field.field_type));
    string_push_str(&mut out, "\" name=\"");
    string_push_str(&mut out, name.as_str());
    string_push_str(&mut out, "\" editable=\"");
    string_push_str(&mut out, bool01(field.editable_in_form));
    string_push_str(&mut out, "\"");
    out
}


/// `<hp:bookmark name=".."/>`.
pub fn write_bookmark(w: &mut XmlWriter, bm: &Bookmark)
    ensures
        final(w)@ == old(w)@.push(XmlItem::Empty("hp:bookmark"@, seq![("name"@, bm.name@)])),
{
    let attrs = vec![attr("name", bm.name.clone())];
    proof {
        assert(attrs_view(attrs@) =~= seq![("name"@, bm.name@)]);
    }
    empty_tag(w, "hp:bookmark", attrs);
}

/// The name a field is written with: its control data name, or empty.
pub open spec fn field_name(field: Field) -> Seq<char> {
    match field.ctrl_data_name {
        Some(n) => n@,
        None => Seq::empty(),
    }
}

/// `<hp:fieldBegin id type name editable/>`: the start marker of a field
/// with no children.
pub fn write_field_begin(w: &mut XmlWriter, field: &Field)
    ensures
        final(w)@ == old(w)@.push(
            XmlItem::Empty(
                "hp:fieldBegin"@,
                seq![
                    ("id"@, decimal(field.field_id as nat)),
                    ("type"@, field_type_name(field.field_type)),
                    ("name"@, field_name(*field)),
                    ("editable"@, bool01_text(field.editable_in_form)),
                ],
            ),
        ),
{
    let name = match &field.ctrl_data_name {
        Some(n) => n.clone(),
        None => String::new(),
    };
    let attrs = vec![
        attr("id", dec(field.field_id as u64)),
        attr_str("type", field_type_str(field.field_type)),
        attr("name", name),
        attr_str("editable", bool01(field.editable_in_form)),
    ];
    proof {
        assert(attrs_view(attrs@) =~= seq![
            ("id"@, decimal(field.field_id as nat)),
            ("type"@, field_type_name(field.field_type)),
            ("name"@, field_name(*field)),
            ("editable"@, bool01_text(field.editable_in_form)),
        ]);
    }
    empty_tag(w, "hp:fieldBegin", attrs);
}

/// `<hp:fieldEnd beginIDRef=".."/>`: the end marker of a field.
pub fn write_field_end(w: &mut XmlWriter, field_id: u32)
    ensures
        final(w)@ == old(w)@.push(
            XmlItem::Empty("hp:fieldEnd"@, seq![("beginIDRef"@, decimal(field_id as nat))]),
        ),
{
    let attrs = vec![attr("beginIDRef", dec(field_id as u64))];
    proof {
        assert(attrs_view(attrs@) =~= seq![("beginIDRef"@, decimal(field_id as nat))]);
    }
    empty_tag(w, "hp:fieldEnd", attrs);
}

/// `<hp:fieldEnd beginIDRef=".." fieldid=".."/>`, without `fieldid` when
/// the field id is 0.
pub fn write_field_end_full(w: &mut XmlWriter, begin_id_ref: u32, field_id: u32)
    ensures
        final(w)@ == old(w)@.push(
            XmlItem::Empty(
                "hp:fieldEnd"@,
                if field_id == 0 {
                    seq![("beginIDRef"@, decimal(begin_id_ref as nat))]
                } else {
                    seq![
                        ("beginIDRef"@, decimal(begin_id_ref as nat)),
                        ("fieldid"@, decimal(field_id as nat)),
                    ]
                },
            ),
        ),
{
    if field_id == 0 {
        write_field_end(w, begin_id_ref);
    } else {
        let attrs = vec![
            attr("beginIDRef", dec(begin_id_ref as u64)),
            attr("fieldid", dec(field_id as u64)),
        ];
        proof {
            assert(attrs_view(attrs@) =~= seq![
                ("beginIDRef"@, decimal(begin_id_ref as nat)),
                ("fieldid"@, decimal(field_id as nat)),
            ]);
        }
        empty_tag(w, "hp:fieldEnd", attrs);
    }
}

/// `<hp:fieldBegin type="HYPERLINK" .. command="url"/>`: the start marker
/// of a hyperlink, its address in `command`.
pub fn write_hyperlink_begin(w: &mut XmlWriter, link: &Hyperlink, field_id: u32)
    ensures
        final(w)@ == old(w)@.push(
            XmlItem::Empty(
                "hp:fieldBegin"@,
                seq![
                    ("id"@, decimal(field_id as nat)),
                    ("type"@, "HYPERLINK"@),
                    ("name"@, Seq::<char>::empty()),
                    ("editable"@, "0"@),
                    ("command"@, link.url@),
                ],
            ),
        ),
{
    let attrs = vec![
        attr("id", dec(field_id as u64)),
        attr_str("type", "HYPERLINK"),
        attr_str("name", ""),
        attr_str("editable", "0"),
        attr("command", link.url.clone()),
    ];
    proof {
        reveal_strlit("");
        assert(attrs@[2].1@ == Seq::<char>::empty());
        assert(attrs@[4].1@ == link.url@);
        assert(attrs_view(attrs@) =~= seq![
            ("id"@, decimal(field_id as nat)),
            ("type"@, "HYPERLINK"@),
            ("name"@, Seq::<char>::empty()),
            ("editable"@, "0"@),
            ("command"@, link.url@),
        ]);
    }
    empty_tag(w, "hp:fieldBegin", attrs);
}

/// Opens a note (`tag` is `hp:fn` or `hp:en`) with its number.
fn write_note_open(w: &mut XmlWriter, tag: &str, number: u16)
    ensures
        final(w)@ == old(w)@.push(XmlItem::Start(tag@, Seq::empty())).push(
            XmlItem::Empty("hp:autoNum"@, seq![("num"@, decimal(number as nat))]),
        ),
{
    start_tag(w, tag);
    let attrs = vec![attr("num", dec(number as u64))];
    proof {
        assert(attrs_view(attrs@) =~= seq![("num"@, decimal(number as nat))]);
    }
    empty_tag(w, "hp:autoNum", attrs);
}

/// `<hp:fn><hp:autoNum num=".."/>`: opens a footnote.
pub fn write_footnote_open(w: &mut XmlWriter, number: u16)
    ensures
        final(w)@ == old(w)@.push(XmlItem::Start("hp:fn"@, Seq::empty())).push(
            XmlItem::Empty("hp:autoNum"@, seq![("num"@, decimal(number as nat))]),
        ),
{
    write_note_open(w, "hp:fn", number);
}

/// `</hp:fn>`: closes a footnote.
pub fn write_footnote_close(w: &mut XmlWriter)
    ensures
        final(w)@ == old(w)@.push(XmlItem::End("hp:fn"@)),
{
    end_tag(w, "hp:fn");
}

/// `<hp:en><hp:autoNum num=".."/>`: opens an endnote.
pub fn write_endnote_open(w: &mut XmlWriter, number: u16)
    ensures
        final(w)@ == old(w)@.push(XmlItem::Start("hp:en"@, Seq::empty())).push(
            XmlItem::Empty("hp:autoNum"@, seq![("num"@, decimal(number as nat))]),
        ),
{
    write_note_open(w, "hp:en", number);
}

/// `</hp:en>`: closes an endnote.
pub fn write_endnote_close(w: &mut XmlWriter)
    ensures
        final(w)@ == old(w)@.push(XmlItem::End("hp:en"@)),
{
    end_tag(w, "hp:en");
}


/// The field type an OWPML `type` attribute value stands for, as a reader
/// of HWPX takes it: the vocabulary of `hp:fieldBegin`.
pub open spec fn field_type_read(name: Seq<char>) -> Option<FieldType> {
    if name == "UNKNOWN"@ {
        Some(FieldType::Unknown)
    } else if name == "DATE"@ {
        Some(FieldType::Date)
    } else if name == "DOCDATE"@ {
        Some(FieldType::DocDate)
    } else if name == "PATH"@ {
        Some(FieldType::Path)
    } else if name == "BOOKMARK"@ {
        Some(FieldType::Bookmark)
    } else if name == "MAILMERGE"@ {
        Some(FieldType::MailMerge)
    } else if name == "CROSSREF"@ {
        Some(FieldType::CrossRef)
    } else if name == "FORMULA"@ {
        Some(FieldType::Formula)
    } else if name == "CLICK_HERE"@ {
        Some(FieldType::ClickHere)
    } else if name == "SUMMARY"@ {
        Some(FieldType::Summary)
    } else if name == "USERINFO"@ {
        Some(FieldType::UserInfo)
    } else if name == "HYPERLINK"@ {
        Some(FieldType::Hyperlink)
    } else if name == "MEMO"@ {
        Some(FieldType::Memo)
    } else if name == "PRIVATE_INFO"@ {
        Some(FieldType::PrivateInfoSecurity)
    } else if name == "TOC"@ {
        Some(FieldType::TableOfContents)
    } else {
        None
    }
}

proof fn lemma_field_type_read_back(t: FieldType)
    ensures
        field_type_read(field_type_name(t)) == Some(t),
{
    reveal_strlit("UNKNOWN");
    reveal_strlit("DATE");
    reveal_strlit("DOCDATE");
    reveal_strlit("PATH");
    reveal_strlit("BOOKMARK");
    reveal_strlit("MAILMERGE");
    reveal_strlit("CROSSREF");
    reveal_strlit("FORMULA");
    reveal_strlit("CLICK_HERE");
    reveal_strlit("SUMMARY");
    reveal_strlit("USERINFO");
    reveal_strlit("HYPERLINK");
    reveal_strlit("MEMO");
    reveal_strlit("PRIVATE_INFO");
    reveal_strlit("TOC");
    match t {
        FieldType::Unknown => {
        },
        FieldType::Date => {
            assert("DATE"@.len() != "UNKNOWN"@.len());
        },
        FieldType::DocDate => {
            assert("DOCDATE"@[0] != "UNKNOWN"@[0]);
            assert("DOCDATE"@.len() != "DATE"@.len());
        },
        FieldType::Path => {
            assert("PATH"@.len() != "UNKNOWN"@.len());
            assert("PATH"@[0] != "DATE"@[0]);
            assert("PATH"@.len() != "DOCDATE"@.len());
        },
        FieldType::Bookmark => {
            assert("BOOKMARK"@.len() != "UNKNOWN"@.len());
            assert("BOOKMARK"@.len() != "DATE"@.len());
            assert("BOOKMARK"@.len() != "DOCDATE"@.len());
            assert("BOOKMARK"@.len() != "PATH"@.len());
        },
        FieldType::MailMerge => {
            assert("MAILMERGE"@.len() != "UNKNOWN"@.len());
            assert("MAILMERGE"@.len() != "DATE"@.len());
            assert("MAILMERGE"@.len() != "DOCDATE"@.len());
            assert("MAILMERGE"@.len() != "PATH"@.len());
            assert("MAILMERGE"@.len() != "BOOKMARK"@.len());
        },
        FieldType::CrossRef => {
            assert("CROSSREF"@.len() != "UNKNOWN"@.len());
            assert("CROSSREF"@.len() != "DATE"@.len());
            assert("CROSSREF"@.len() != "DOCDATE"@.len());
            assert("CROSSREF"@.len() != "PATH"@.len());
            assert("CROSSREF"@[0] != "BOOKMARK"@[0]);
            assert("CROSSREF"@.len() != "MAILMERGE"@.len());
        },
        FieldType::Formula => {
            assert("FORMULA"@[0] != "UNKNOWN"@[0]);
            assert("FORMULA"@.len() != "DATE"@.len());
            assert("FORMULA"@[0] != "DOCDATE"@[0]);
            assert("FORMULA"@.len() != "PATH"@.len());
            assert("FORMULA"@.len() != "BOOKMARK"@.len());
            assert("FORMULA"@.len() != "MAILMERGE"@.len());
            assert("FORMULA"@.len() != "CROSSREF"@.len());
        },
        FieldType::ClickHere => {
            assert("CLICK_HERE"@.len() != "UNKNOWN"@.len());
            assert("CLICK_HERE"@.len() != "DATE"@.len());
            assert("CLICK_HERE"@.len() != "DOCDATE"@.len());
            assert("CLICK_HERE"@.len() != "PATH"@.len());
            assert("CLICK_HERE"@.len() != "BOOKMARK"@.len());
            assert("CLICK_HERE"@.len() != "MAILMERGE"@.len());
            assert("CLICK_HERE"@.len() != "CROSSREF"@.len());
            assert("CLICK_HERE"@.len() != "FORMULA"@.len());
        },
        FieldType::Summary => {
            assert("SUMMARY"@[0] != "UNKNOWN"@[0]);
            assert("SUMMARY"@.len() != "DATE"@.len());
            assert("SUMMARY"@[0] != "DOCDATE"@[0]);
            assert("SUMMARY"@.len() != "PATH"@.len());
            assert("SUMMARY"@.len() != "BOOKMARK"@.len());
            assert("SUMMARY"@.len() != "MAILMERGE"@.len());
            assert("SUMMARY"@.len() != "CROSSREF"@.len());
            assert("SUMMARY"@[0] != "FORMULA"@[0]);
            assert("SUMMARY"@.len() != "CLICK_HERE"@.len());
        },
        FieldType::UserInfo => {
            assert("USERINFO"@.len() != "UNKNOWN"@.len());
            assert("USERINFO"@.len() != "DATE"@.len());
            assert("USERINFO"@.len() != "DOCDATE"@.len());
            assert("USERINFO"@.len() != "PATH"@.len());
            assert("USERINFO"@[0] != "BOOKMARK"@[0]);
            assert("USERINFO"@.len() != "MAILMERGE"@.len());
            assert("USERINFO"@[0] != "CROSSREF"@[0]);
            assert("USERINFO"@.len() != "FORMULA"@.len());
            assert("USERINFO"@.len() != "CLICK_HERE"@.len());
            assert("USERINFO"@.len() != "SUMMARY"@.len());
        },
        FieldType::Hyperlink => {
            assert("HYPERLINK"@.len() != "UNKNOWN"@.len());
            assert("HYPERLINK"@.len() != "DATE"@.len());
            assert("HYPERLINK"@.len() != "DOCDATE"@.len());
            assert("HYPERLINK"@.len() != "PATH"@.len());
            assert("HYPERLINK"@.len() != "BOOKMARK"@.len());
            assert("HYPERLINK"@[0] != "MAILMERGE"@[0]);
            assert("HYPERLINK"@.len() != "CROSSREF"@.len());
            assert("HYPERLINK"@.len() != "FORMULA"@.len());
            assert("HYPERLINK"@.len() != "CLICK_HERE"@.len());
            assert("HYPERLINK"@.len() != "SUMMARY"@.len());
            assert("HYPERLINK"@.len() != "USERINFO"@.len());
        },
        FieldType::Memo => {
            assert("MEMO"@.len() != "UNKNOWN"@.len());
            assert("MEMO"@[0] != "DATE"@[0]);
            assert("MEMO"@.len() != "DOCDATE"@.len());
            assert("MEMO"@[0] != "PATH"@[0]);
            assert("MEMO"@.len() != "BOOKMARK"@.len());
            assert("MEMO"@.len() != "MAILMERGE"@.len());
            assert("MEMO"@.len() != "CROSSREF"@.len());
            assert("MEMO"@.len() != "FORMULA"@.len());
            assert("MEMO"@.len() != "CLICK_HERE"@.len());
            assert("MEMO"@.len() != "SUMMARY"@.len());
            assert("MEMO"@.len() != "USERINFO"@.len());
            assert("MEMO"@.len() != "HYPERLINK"@.len());
        },
        FieldType::PrivateInfoSecurity => {
            assert("PRIVATE_INFO"@.len() != "UNKNOWN"@.len());
            assert("PRIVATE_INFO"@.len() != "DATE"@.len());
            assert("PRIVATE_INFO"@.len() != "DOCDATE"@.len());
            assert("PRIVATE_INFO"@.len() != "PATH"@.len());
            assert("PRIVATE_INFO"@.len() != "BOOKMARK"@.len());
            assert("PRIVATE_INFO"@.len() != "MAILMERGE"@.len());
            assert("PRIVATE_INFO"@.len() != "CROSSREF"@.len());
            assert("PRIVATE_INFO"@.len() != "FORMULA"@.len());
            assert("PRIVATE_INFO"@.len() != "CLICK_HERE"@.len());
            assert("PRIVATE_INFO"@.len() != "SUMMARY"@.len());
            assert("PRIVATE_INFO"@.len() != "USERINFO"@.len());
            assert("PRIVATE_INFO"@.len() != "HYPERLINK"@.len());
            assert("PRIVATE_INFO"@.len() != "MEMO"@.len());
        },
        FieldType::TableOfContents => {
            assert("TOC"@.len() != "UNKNOWN"@.len());
            assert("TOC"@.len() != "DATE"@.len());
            assert("TOC"@.len() != "DOCDATE"@.len());
            assert("TOC"@.len() != "PATH"@.len());
            assert("TOC"@.len() != "BOOKMARK"@.len());
            assert("TOC"@.len() != "MAILMERGE"@.len());
            assert("TOC"@.len() != "CROSSREF"@.len());
            assert("TOC"@.len() != "FORMULA"@.len());
            assert("TOC"@.len() != "CLICK_HERE"@.len());
            assert("TOC"@.len() != "SUMMARY"@.len());
            assert("TOC"@.len() != "USERINFO"@.len());
            assert("TOC"@.len() != "HYPERLINK"@.len());
            assert("TOC"@.len() != "MEMO"@.len());
            assert("TOC"@.len() != "PRIVATE_INFO"@.len());
        },
    }
}

/// The type written for a field reads back as the field's own type: each
/// field type is written with its OWPML vocabulary name (a date field as
/// `DATE`, a document-date field as `DOCDATE`, and so on), so that no two
/// field types are written alike.
pub proof fn law_field_type_names_read_back(t: FieldType, u: FieldType)
    ensures
        field_type_read(field_type_name(t)) == Some(t),
        field_type_name(t) == field_type_name(u) ==> t == u,
{
    lemma_field_type_read_back(t);
    lemma_field_type_read_back(u);
}


} // verus!
