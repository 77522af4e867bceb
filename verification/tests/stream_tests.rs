use pdf_analyzer::interp::analyze_content_operations;
use pdf_analyzer::ops::{Operand, Operation};

fn op(name: &[u8], nums: &[i64]) -> Operation {
    Operation {
        name: name.to_vec(),
        operands: nums.iter().map(|v| Operand::Num(*v)).collect(),
    }
}

fn name_op(name: &[u8], arg: &[u8]) -> Operation {
    Operation {
        name: name.to_vec(),
        operands: vec![Operand::Name(arg.to_vec())],
    }
}

#[test]
fn full_page_fill_rectangle() {
    // `0 0 612 792 re f` as the only drawing instruction, default colors.
    let ops = vec![op(b"re", &[0, 0, 612_000, 792_000]), op(b"f", &[])];
    let r = analyze_content_operations(&ops, 1, &None, &None);
    assert_eq!(r.pdf_page, 1);
    assert_eq!(r.summary.total_operations, 2);
    assert_eq!(r.summary.rectangle_operations, 1);
    assert_eq!(r.summary.other_operations, 1);
    assert_eq!(r.rectangles.len(), 1);
    let rect = &r.rectangles[0];
    assert_eq!(rect.operation_type, b"Fill only".to_vec());
    assert_eq!(rect.dimensions.width, 612_000);
    assert_eq!(rect.dimensions.height, 792_000);
    assert_eq!(rect.corners.y1, 0);
    assert_eq!(rect.corners.y2, 792_000);
    assert_eq!(rect.fill_color, b"Gray(0) (DeviceGray)".to_vec());
    assert_eq!(rect.stroke_color, b"Gray(0) (DeviceGray)".to_vec());
    assert_eq!(rect.page, 1);
    assert!(rect.fill_color_override.is_none());
}

#[test]
fn translated_stroked_rectangle() {
    // `q 1 0 0 1 100 50 cm 10 10 20 20 re S Q`: offset by (100, 50).
    let ops = vec![
        op(b"q", &[]),
        op(b"cm", &[1000, 0, 0, 1000, 100_000, 50_000]),
        op(b"re", &[10_000, 10_000, 20_000, 20_000]),
        op(b"S", &[]),
        op(b"Q", &[]),
    ];
    let r = analyze_content_operations(&ops, 1, &None, &None);
    assert_eq!(r.rectangles.len(), 1);
    let rect = &r.rectangles[0];
    assert_eq!(rect.operation_type, b"Stroke only".to_vec());
    assert_eq!(rect.position.x, 110_000);
    assert_eq!(rect.position.y, 60_000);
    assert_eq!(rect.corners.x1, 110_000);
    assert_eq!(rect.corners.y1, 60_000);
    assert_eq!(rect.corners.x2, 130_000);
    assert_eq!(rect.corners.y2, 80_000);
    assert_eq!(rect.operation, 2);
}

#[test]
fn abandoned_path_is_unknown() {
    // Two rectangles, the second followed by closepath and save: Unknown.
    let ops = vec![
        op(b"re", &[0, 0, 10_000, 10_000]),
        op(b"re", &[5_000, 5_000, 10_000, 10_000]),
        op(b"h", &[]),
        op(b"q", &[]),
    ];
    let r = analyze_content_operations(&ops, 1, &None, &None);
    assert_eq!(r.summary.rectangle_operations, 2);
    assert_eq!(r.rectangles.len(), 2);
    assert_eq!(r.rectangles[0].operation_type, b"Unknown".to_vec());
    assert_eq!(r.rectangles[1].operation_type, b"Unknown".to_vec());
}

#[test]
fn negative_height_is_normalized() {
    let ops = vec![op(b"re", &[0, 10_000, 5_000, -10_000]), op(b"f", &[])];
    let r = analyze_content_operations(&ops, 1, &None, &None);
    assert_eq!(r.rectangles.len(), 1);
    let rect = &r.rectangles[0];
    assert!(rect.corners.y1 <= rect.corners.y2);
    assert_eq!(rect.corners.y1, 0);
    assert_eq!(rect.corners.y2, 10_000);
    assert_eq!(rect.dimensions.height, 10_000);
    assert_eq!(rect.dimensions.width, 5_000);
}

#[test]
fn fill_color_set_by_rg() {
    let ops = vec![
        op(b"rg", &[1000, 0, 500]),
        op(b"re", &[0, 0, 1_000, 1_000]),
        op(b"f", &[]),
    ];
    let r = analyze_content_operations(&ops, 1, &None, &None);
    assert_eq!(
        r.rectangles[0].fill_color,
        b"RGB(255, 0, 127) (DeviceRGB)".to_vec()
    );
}

#[test]
fn color_under_selected_space() {
    // `cs /srgb` then `scn` with three operands sets the fill color.
    let ops = vec![
        name_op(b"cs", b"srgb"),
        op(b"scn", &[0, 1000, 0]),
        op(b"re", &[0, 0, 1_000, 1_000]),
        op(b"f", &[]),
    ];
    let r = analyze_content_operations(&ops, 1, &None, &None);
    assert_eq!(r.rectangles[0].fill_color, b"RGB(0, 255, 0) (srgb)".to_vec());
}

#[test]
fn color_operands_ignored_under_other_space() {
    let ops = vec![
        name_op(b"cs", b"Pattern"),
        op(b"scn", &[1000, 1000, 1000]),
        op(b"re", &[0, 0, 1_000, 1_000]),
        op(b"f", &[]),
    ];
    let r = analyze_content_operations(&ops, 1, &None, &None);
    assert_eq!(r.rectangles[0].fill_color, b"Gray(0) (Pattern)".to_vec());
}

#[test]
fn missing_color_space_operand_falls_back_to_gray() {
    let ops = vec![
        name_op(b"cs", b"srgb"),
        op(b"cs", &[]),
        op(b"re", &[0, 0, 1_000, 1_000]),
        op(b"f", &[]),
    ];
    let r = analyze_content_operations(&ops, 1, &None, &None);
    assert_eq!(r.rectangles[0].fill_color, b"Gray(0) (DeviceGray)".to_vec());
}

#[test]
fn save_restore_restores_colors() {
    let ops = vec![
        op(b"q", &[]),
        op(b"rg", &[1000, 1000, 1000]),
        op(b"Q", &[]),
        op(b"re", &[0, 0, 1_000, 1_000]),
        op(b"f", &[]),
    ];
    let r = analyze_content_operations(&ops, 1, &None, &None);
    assert_eq!(r.rectangles[0].fill_color, b"Gray(0) (DeviceGray)".to_vec());
}

#[test]
fn restore_on_empty_stack_is_noop() {
    let ops = vec![
        op(b"Q", &[]),
        op(b"re", &[0, 0, 1_000, 1_000]),
        op(b"f", &[]),
    ];
    let r = analyze_content_operations(&ops, 1, &None, &None);
    assert_eq!(r.rectangles.len(), 1);
    assert_eq!(r.rectangles[0].fill_color, b"Gray(0) (DeviceGray)".to_vec());
}

#[test]
fn line_width_and_font_carried_into_record() {
    let ops = vec![
        op(b"w", &[2_500]),
        name_op(b"Tf", b"F7"),
        op(b"re", &[0, 0, 1_000, 1_000]),
        op(b"S", &[]),
    ];
    let r = analyze_content_operations(&ops, 1, &None, &None);
    let rect = &r.rectangles[0];
    assert_eq!(rect.line_width, 2_500);
    assert_eq!(rect.border, 1_000);
    assert_eq!(rect.font_name, Some(b"F7".to_vec()));
    assert_eq!(r.summary.text_operations, 1);
}

#[test]
fn short_rectangle_operand_list_is_counted_not_emitted() {
    let ops = vec![op(b"re", &[0, 0, 1_000]), op(b"f", &[])];
    let r = analyze_content_operations(&ops, 1, &None, &None);
    assert_eq!(r.summary.rectangle_operations, 1);
    assert_eq!(r.rectangles.len(), 0);
}

#[test]
fn color_filter_drops_mismatch() {
    let target = Some(b"RGB(255, 0, 0)".to_vec());
    let ops = vec![op(b"re", &[0, 0, 1_000, 1_000]), op(b"f", &[])];
    let r = analyze_content_operations(&ops, 1, &target, &None);
    assert_eq!(r.rectangles.len(), 0);
    assert_eq!(r.summary.rectangle_operations, 1);
}

#[test]
fn color_filter_matches_substring() {
    let target = Some(b"Gray(0)".to_vec());
    let ops = vec![op(b"re", &[0, 0, 1_000, 1_000]), op(b"f", &[])];
    let r = analyze_content_operations(&ops, 1, &target, &target);
    assert_eq!(r.rectangles.len(), 1);
}

#[test]
fn color_filter_sees_formatted_tag() {
    // The filter matches against the formatted `<color> (<space>)` tag, so
    // a color-space name alone is a usable target.
    let target = Some(b"DeviceGray".to_vec());
    let ops = vec![op(b"re", &[0, 0, 1_000, 1_000]), op(b"f", &[])];
    let r = analyze_content_operations(&ops, 1, &target, &None);
    assert_eq!(r.rectangles.len(), 1);
    let full = Some(b"Gray(0) (DeviceGray)".to_vec());
    let r2 = analyze_content_operations(&ops, 1, &full, &full);
    assert_eq!(r2.rectangles.len(), 1);
}

#[test]
fn fractional_scale_propagates() {
    // A 0.4 scale carries through to the emitted coordinates.
    let ops = vec![
        op(b"cm", &[400, 0, 0, 400, 0, 0]),
        op(b"re", &[10_000, 10_000, 20_000, 20_000]),
        op(b"f", &[]),
    ];
    let r = analyze_content_operations(&ops, 1, &None, &None);
    assert_eq!(r.rectangles.len(), 1);
    let rect = &r.rectangles[0];
    assert_eq!(rect.position.x, 4_000);
    assert_eq!(rect.position.y, 4_000);
    assert_eq!(rect.dimensions.width, 8_000);
    assert_eq!(rect.dimensions.height, 8_000);
}

#[test]
fn no_filter_keeps_superset_of_filtered() {
    let ops = vec![
        op(b"re", &[0, 0, 1_000, 1_000]),
        op(b"f", &[]),
        op(b"rg", &[1000, 0, 0]),
        op(b"re", &[0, 0, 2_000, 2_000]),
        op(b"f", &[]),
    ];
    let target = Some(b"RGB(255, 0, 0)".to_vec());
    let all = analyze_content_operations(&ops, 1, &None, &None);
    let some = analyze_content_operations(&ops, 1, &target, &None);
    assert_eq!(all.rectangles.len(), 2);
    assert_eq!(some.rectangles.len(), 1);
    for kept in &some.rectangles {
        assert!(all
            .rectangles
            .iter()
            .any(|r| r.operation == kept.operation && r.fill_color == kept.fill_color));
    }
}

#[test]
fn page_background_override() {
    // First operator, x = 0, wider than 590, height below -800: colors are
    // overridden with the fixed targets, so the target filter keeps it.
    let fill = Some(b"RGB(214, 255, 244)".to_vec());
    let stroke = Some(b"RGB(0, 184, 148)".to_vec());
    let ops = vec![op(b"re", &[0, 850_000, 612_000, -850_000]), op(b"f", &[])];
    let r = analyze_content_operations(&ops, 1, &fill, &stroke);
    assert_eq!(r.rectangles.len(), 1);
    let rect = &r.rectangles[0];
    assert_eq!(rect.fill_color, b"RGB(214, 255, 244)".to_vec());
    assert_eq!(rect.stroke_color, b"RGB(0, 184, 148)".to_vec());
    assert_eq!(rect.fill_color_override, Some(b"RGB(214, 255, 244)".to_vec()));
}

#[test]
fn later_rectangle_not_overridden() {
    let fill = Some(b"RGB(214, 255, 244)".to_vec());
    let ops = vec![
        op(b"h", &[]),
        op(b"re", &[0, 850_000, 612_000, -850_000]),
        op(b"f", &[]),
    ];
    let r = analyze_content_operations(&ops, 1, &fill, &None);
    assert_eq!(r.rectangles.len(), 0);
}

#[test]
fn histogram_counts_and_order() {
    let ops = vec![
        op(b"h", &[]),
        op(b"h", &[]),
        op(b"h", &[]),
        op(b"m", &[0, 0]),
        op(b"m", &[0, 0]),
        op(b"l", &[0, 0]),
    ];
    let r = analyze_content_operations(&ops, 1, &None, &None);
    assert_eq!(r.most_common_operators.len(), 3);
    assert_eq!(r.most_common_operators[0].operator, b"h".to_vec());
    assert_eq!(r.most_common_operators[0].occurrences, 3);
    assert_eq!(r.most_common_operators[1].operator, b"m".to_vec());
    assert_eq!(r.most_common_operators[1].occurrences, 2);
    assert_eq!(r.most_common_operators[2].operator, b"l".to_vec());
    assert_eq!(r.most_common_operators[2].occurrences, 1);
    assert_eq!(r.summary.path_operations, 6);
}

#[test]
fn histogram_keeps_ten_most_frequent() {
    let mut ops = Vec::new();
    for k in 0..12u8 {
        let name = vec![b'A' + k];
        for _ in 0..(k as usize + 1) {
            ops.push(op(&name, &[]));
        }
    }
    let r = analyze_content_operations(&ops, 1, &None, &None);
    assert_eq!(r.most_common_operators.len(), 10);
    assert_eq!(r.most_common_operators[0].operator, vec![b'A' + 11]);
    assert_eq!(r.most_common_operators[0].occurrences, 12);
    assert_eq!(r.most_common_operators[9].occurrences, 3);
    for w in r.most_common_operators.windows(2) {
        assert!(w[0].occurrences >= w[1].occurrences);
    }
}

#[test]
fn unknown_operators_never_abort() {
    let ops = vec![
        op(b"XYZ", &[1, 2, 3]),
        Operation {
            name: b"BDC".to_vec(),
            operands: vec![Operand::Other],
        },
        op(b"re", &[0, 0, 1_000, 1_000]),
        op(b"B", &[]),
    ];
    let r = analyze_content_operations(&ops, 1, &None, &None);
    assert_eq!(r.summary.other_operations, 3);
    assert_eq!(r.rectangles.len(), 1);
    assert_eq!(r.rectangles[0].operation_type, b"Fill and Stroke".to_vec());
}

#[test]
fn name_operand_reads_as_zero() {
    let ops = vec![
        Operation {
            name: b"w".to_vec(),
            operands: vec![Operand::Name(b"wide".to_vec())],
        },
        op(b"re", &[0, 0, 1_000, 1_000]),
        op(b"S", &[]),
    ];
    let r = analyze_content_operations(&ops, 1, &None, &None);
    assert_eq!(r.rectangles[0].line_width, 0);
}

#[test]
fn raw_operands_recorded() {
    let ops = vec![op(b"re", &[1_000, 2_000, 3_000, -4_000]), op(b"f", &[])];
    let r = analyze_content_operations(&ops, 1, &None, &None);
    assert_eq!(
        r.rectangles[0].fill_color_operands,
        vec![1_000, 2_000, 3_000, -4_000]
    );
}

#[test]
fn scaling_transform_applies_to_coordinates() {
    // A 2x scale: `2 0 0 2 0 0 cm`.
    let ops = vec![
        op(b"cm", &[2_000, 0, 0, 2_000, 0, 0]),
        op(b"re", &[1_000, 1_000, 2_000, 2_000]),
        op(b"f", &[]),
    ];
    let r = analyze_content_operations(&ops, 1, &None, &None);
    let rect = &r.rectangles[0];
    assert_eq!(rect.position.x, 2_000);
    assert_eq!(rect.position.y, 2_000);
    assert_eq!(rect.dimensions.width, 4_000);
    assert_eq!(rect.dimensions.height, 4_000);
}

#[test]
fn stroke_color_operators() {
    // `G` sets a gray stroke color; `SCN` under a selected stroke space
    // sets an RGB stroke color.
    let ops = vec![
        op(b"G", &[500]),
        op(b"re", &[0, 0, 1_000, 1_000]),
        op(b"S", &[]),
        name_op(b"CS", b"DeviceRGB"),
        op(b"SCN", &[1000, 0, 0]),
        op(b"re", &[0, 0, 1_000, 1_000]),
        op(b"S", &[]),
    ];
    let r = analyze_content_operations(&ops, 1, &None, &None);
    assert_eq!(r.rectangles.len(), 2);
    assert_eq!(r.rectangles[0].stroke_color, b"Gray(127) (DeviceGray)".to_vec());
    assert_eq!(r.rectangles[1].stroke_color, b"RGB(255, 0, 0) (DeviceRGB)".to_vec());
}

#[test]
fn text_operators_counted() {
    let ops = vec![
        op(b"BT", &[]),
        op(b"Td", &[1, 2]),
        op(b"Tj", &[]),
        op(b"ET", &[]),
        op(b"T*", &[]),
    ];
    let r = analyze_content_operations(&ops, 1, &None, &None);
    assert_eq!(r.summary.text_operations, 5);
    assert_eq!(r.summary.other_operations, 0);
    assert_eq!(r.summary.path_operations, 0);
}

#[test]
fn histogram_ties_keep_first_seen_order() {
    let ops = vec![op(b"m", &[0, 0]), op(b"l", &[0, 0]), op(b"m", &[0, 0]), op(b"l", &[0, 0])];
    let r = analyze_content_operations(&ops, 1, &None, &None);
    assert_eq!(r.most_common_operators.len(), 2);
    assert_eq!(r.most_common_operators[0].operator, b"m".to_vec());
    assert_eq!(r.most_common_operators[1].operator, b"l".to_vec());
    assert_eq!(r.most_common_operators[0].occurrences, 2);
    assert_eq!(r.most_common_operators[1].occurrences, 2);
}

#[test]
fn merged_concat_matrix_streams_agree() {
    // Three concat-matrix operators against their single combined product:
    // the same rectangle comes out, its operation index smaller by two.
    let ops1 = vec![
        op(b"cm", &[2_000, 0, 0, 2_000, 0, 0]),
        op(b"cm", &[1_000, 0, 0, 1_000, 5_000, 0]),
        op(b"cm", &[1_000, 0, 0, 1_000, 0, 7_000]),
        op(b"re", &[1_000, 1_000, 2_000, 2_000]),
        op(b"f", &[]),
    ];
    let ops2 = vec![
        op(b"cm", &[2_000, 0, 0, 2_000, 10_000, 14_000]),
        op(b"re", &[1_000, 1_000, 2_000, 2_000]),
        op(b"f", &[]),
    ];
    let r1 = analyze_content_operations(&ops1, 1, &None, &None);
    let r2 = analyze_content_operations(&ops2, 1, &None, &None);
    assert_eq!(r1.rectangles.len(), 1);
    assert_eq!(r2.rectangles.len(), 1);
    let a = &r1.rectangles[0];
    let b = &r2.rectangles[0];
    assert_eq!(a.operation, 3);
    assert_eq!(b.operation, 1);
    assert_eq!(a.position.x, 12_000);
    assert_eq!(a.position.y, 16_000);
    assert_eq!((a.position.x, a.position.y), (b.position.x, b.position.y));
    assert_eq!(
        (a.corners.x1, a.corners.y1, a.corners.x2, a.corners.y2),
        (b.corners.x1, b.corners.y1, b.corners.x2, b.corners.y2)
    );
    assert_eq!(a.dimensions.width, b.dimensions.width);
    assert_eq!(a.fill_color, b.fill_color);
    assert_eq!(a.operation_type, b.operation_type);
}

#[test]
fn empty_stream_yields_nothing() {
    let ops: Vec<Operation> = Vec::new();
    let r = analyze_content_operations(&ops, 3, &None, &None);
    assert_eq!(r.pdf_page, 3);
    assert_eq!(r.summary.total_operations, 0);
    assert_eq!(r.rectangles.len(), 0);
    assert_eq!(r.most_common_operators.len(), 0);
}
