use rhwp::model::paragraph::{LineSeg, Paragraph};
use rhwp::renderer::composer::line_breaking::{recalculate_section_vpos, section_vpos_fits};

fn seg(vpos: i32, tag: u32) -> LineSeg {
    LineSeg {
        text_start: 0,
        vertical_pos: vpos,
        line_height: 1000,
        text_height: 1000,
        baseline_distance: 850,
        line_spacing: 600,
        column_start: 0,
        segment_width: 40000,
        tag,
    }
}

fn para(vposes: &[i32]) -> Paragraph {
    Paragraph {
        text: String::from("x"),
        char_offsets: vec![0],
        char_shapes: vec![],
        line_segs: vposes.iter().map(|v| seg(*v, 0)).collect(),
        controls: vec![],
        track_marks: vec![],
    }
}

fn positions(ps: &[Paragraph]) -> Vec<Vec<i32>> {
    ps.iter().map(|p| p.line_segs.iter().map(|s| s.vertical_pos).collect()).collect()
}

#[test]
fn grown_paragraph_pushes_the_rest_down() {
    // paragraph 0 grew from one line (stored end 1600) to two
    let mut ps = vec![para(&[0, 1600]), para(&[1600]), para(&[3200])];
    recalculate_section_vpos(&mut ps, 0, None, Some(1600), &vec![0, 0, 0]);
    assert_eq!(positions(&ps), vec![vec![0, 1600], vec![3200], vec![4800]]);
    // nothing but the positions changed
    assert_eq!(ps[1].line_segs[0].line_height, 1000);
    assert_eq!(ps[2].text, "x");
}

#[test]
fn boundary_gap_is_added_after_the_edited_paragraph() {
    let mut ps = vec![para(&[0, 1600]), para(&[1600]), para(&[3200])];
    recalculate_section_vpos(&mut ps, 0, None, Some(1600), &vec![0, 400, 400]);
    // the touched boundary uses the gap; the next keeps its stored spacing
    assert_eq!(positions(&ps), vec![vec![0, 1600], vec![3600], vec![5200]]);
}

#[test]
fn page_reset_keeps_its_stored_position() {
    // paragraph 2 starts a new page (its first line lies above the stored end of 1)
    let mut ps = vec![para(&[0, 1600]), para(&[1600]), para(&[0])];
    recalculate_section_vpos(&mut ps, 0, None, Some(1600), &vec![0, 0, 0]);
    assert_eq!(positions(&ps), vec![vec![0, 1600], vec![3200], vec![0]]);
}

#[test]
fn new_paragraphs_are_never_a_reset() {
    // paragraph 1 was just inserted with position 0: it joins the flow
    let mut ps = vec![para(&[0]), para(&[0]), para(&[1600])];
    recalculate_section_vpos(&mut ps, 0, Some((1, 2)), Some(1600), &vec![0, 0, 0]);
    assert_eq!(positions(&ps), vec![vec![0], vec![1600], vec![3200]]);
}

#[test]
fn synthesized_segment_is_never_a_reset() {
    let mut ps = vec![para(&[0, 1600]), para(&[1600]), para(&[0])];
    ps[2].line_segs[0].tag = 0x8000_0000;
    recalculate_section_vpos(&mut ps, 0, None, Some(1600), &vec![0, 0, 0]);
    // carried shift of the previous paragraph
    assert_eq!(positions(&ps), vec![vec![0, 1600], vec![3200], vec![1600]]);
}

#[test]
fn paragraphs_before_the_edit_do_not_move() {
    let mut ps = vec![para(&[0]), para(&[1600, 3200]), para(&[3200]), para(&[])];
    recalculate_section_vpos(&mut ps, 1, None, Some(3200), &vec![0, 0, 0, 0]);
    assert_eq!(positions(&ps), vec![vec![0], vec![1600, 3200], vec![4800], vec![]]);
    // a start past the end changes nothing
    let before = positions(&ps);
    recalculate_section_vpos(&mut ps, 9, None, None, &vec![0, 0, 0, 0]);
    assert_eq!(positions(&ps), before);
}

#[test]
fn overflowing_shift_is_detected() {
    let ps = vec![para(&[0, 1600]), para(&[i32::MIN + 5])];
    // joining paragraph 1 to the flow would shift it by more than i32::MAX
    assert!(!section_vpos_fits(&ps, 0, Some((1, 2)), None, &vec![0, 0]));
    let ok = vec![para(&[0, 1600]), para(&[1600])];
    assert!(section_vpos_fits(&ok, 0, None, Some(1600), &vec![0, 0]));
}
