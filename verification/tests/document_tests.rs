use pdf_analyzer::color::{gray_tag, rgb_tag, scale_channel, target_fill_color, target_stroke_color};
use pdf_analyzer::bytes::{bytes_eq, contains_bytes};
use pdf_analyzer::latex::{analyze_latex_annotations, detect_signature_fields, AnnotRecord};
use pdf_analyzer::ops::{Operand, Operation};
use pdf_analyzer::transform::Transform;
use pdf_analyzer::typst::{
    analyze_typst_pages, get_page_height, select_engine, Engine, PageContent,
};

fn op(name: &[u8], nums: &[i64]) -> Operation {
    Operation {
        name: name.to_vec(),
        operands: nums.iter().map(|v| Operand::Num(*v)).collect(),
    }
}

fn nums(vals: &[i64]) -> Vec<Operand> {
    vals.iter().map(|v| Operand::Num(*v)).collect()
}

#[test]
fn document_totals_match_flattened_list() {
    let pages = vec![
        PageContent {
            page_number: 1,
            streams: vec![
                vec![op(b"re", &[0, 0, 1_000, 1_000]), op(b"f", &[])],
                vec![op(b"re", &[0, 0, 2_000, 2_000]), op(b"S", &[])],
            ],
        },
        PageContent {
            page_number: 2,
            streams: vec![vec![op(b"re", &[0, 0, 3_000, 3_000]), op(b"B", &[])]],
        },
        PageContent { page_number: 3, streams: vec![] },
    ];
    let r = analyze_typst_pages(&pages, &None, &None);
    assert_eq!(r.total_pages, 3);
    assert_eq!(r.total_rectangles, 3);
    assert_eq!(r.rectangles.len(), 3);
    let per_page: Vec<usize> = (1..=3)
        .map(|p| r.rectangles.iter().filter(|x| x.page == p).count())
        .collect();
    assert_eq!(per_page, vec![2, 1, 0]);
    assert_eq!(r.total_rectangles, per_page.iter().sum::<usize>());
    assert_eq!(r.rectangles[0].page, 1);
    assert_eq!(r.rectangles[2].page, 2);
}

#[test]
fn document_without_rectangles_is_empty() {
    let pages = vec![
        PageContent {
            page_number: 1,
            streams: vec![vec![op(b"m", &[0, 0]), op(b"l", &[1, 1]), op(b"S", &[])]],
        },
        PageContent { page_number: 2, streams: vec![vec![]] },
    ];
    let r = analyze_typst_pages(&pages, &None, &None);
    assert_eq!(r.total_pages, 2);
    assert_eq!(r.total_rectangles, 0);
    assert!(r.rectangles.is_empty());
}

#[test]
fn signature_field_annotation() {
    // One `/FT /Sig` annotation with `/Rect [10 20 110 220]`.
    let pages = vec![vec![AnnotRecord {
        field_type: Some(b"Sig".to_vec()),
        rect: Some(nums(&[10_000, 20_000, 110_000, 220_000])),
    }]];
    let r = analyze_latex_annotations(&pages, 1);
    assert_eq!(r.total_pages, 1);
    assert_eq!(r.total_rectangles, 1);
    let rect = &r.rectangles[0];
    assert_eq!(rect.operation_type, b"SignatureField".to_vec());
    assert_eq!(rect.dimensions.width, 100_000);
    assert_eq!(rect.dimensions.height, 200_000);
    assert_eq!(rect.position.x, 10_000);
    assert_eq!(rect.position.y, 20_000);
    assert_eq!(rect.corners.x2, 110_000);
    assert_eq!(rect.corners.y2, 220_000);
    assert_eq!(rect.page, 1);
    assert_eq!(rect.fill_color, b"Unknown".to_vec());
}

#[test]
fn non_signature_annotations_dropped() {
    let pages = vec![
        vec![
            AnnotRecord {
                field_type: Some(b"Tx".to_vec()),
                rect: Some(nums(&[0, 0, 1, 1])),
            },
            AnnotRecord { field_type: None, rect: Some(nums(&[0, 0, 1, 1])) },
            AnnotRecord {
                field_type: Some(b"Sig".to_vec()),
                rect: Some(nums(&[0, 0, 1, 1, 2])),
            },
            AnnotRecord { field_type: Some(b"Sig".to_vec()), rect: None },
            AnnotRecord {
                field_type: Some(b"Sig".to_vec()),
                rect: Some(vec![
                    Operand::Num(0),
                    Operand::Name(b"x".to_vec()),
                    Operand::Num(1),
                    Operand::Num(1),
                ]),
            },
        ],
        vec![AnnotRecord {
            field_type: Some(b"Sig".to_vec()),
            rect: Some(nums(&[5, 6, 7, 8])),
        }],
    ];
    let fields = detect_signature_fields(&pages);
    assert_eq!(fields.len(), 1);
    assert_eq!(fields[0].page, 2);
    assert_eq!(fields[0].x0, 5);
    assert_eq!(fields[0].width, 2);
    assert_eq!(fields[0].height, 2);
}

#[test]
fn engine_selection() {
    assert_eq!(select_engine(&Some(b"latex".to_vec())), Engine::Latex);
    assert_eq!(select_engine(&Some(b"typst".to_vec())), Engine::Typst);
    assert_eq!(select_engine(&Some(b"other".to_vec())), Engine::Typst);
    assert_eq!(select_engine(&None), Engine::Typst);
}

#[test]
fn page_height_prefers_media_box() {
    let media = Some(nums(&[0, 0, 612_000, 792_000]));
    let crop = Some(nums(&[0, 100_000, 612_000, 500_000]));
    assert_eq!(get_page_height(&media, &crop), Some(792_000));
    assert_eq!(get_page_height(&None, &crop), Some(400_000));
    assert_eq!(get_page_height(&None, &None), None);
    let short = Some(nums(&[0, 0, 612_000]));
    assert_eq!(get_page_height(&short, &crop), Some(400_000));
}

#[test]
fn compose_rounds_half_away_from_zero() {
    // 0.1 scale onto 0.005 scale: the product 0.0005 rounds to 0.001.
    let m = Transform { a: 100, b: 0, c: 0, d: 100, e: 0, f: 0 };
    let n = Transform { a: 5, b: 0, c: 0, d: 5, e: 0, f: 0 };
    let r = m.checked_compose(&n).unwrap();
    assert_eq!(r.a, 1);
    assert_eq!(r.d, 1);
    let neg = Transform { a: -5, b: 0, c: 0, d: -5, e: 0, f: 0 };
    let r2 = m.checked_compose(&neg).unwrap();
    assert_eq!(r2.a, -1);
    assert_eq!(r2.d, -1);
}

#[test]
fn channel_scaling() {
    assert_eq!(scale_channel(0), 0);
    assert_eq!(scale_channel(-300), 0);
    assert_eq!(scale_channel(500), 127);
    assert_eq!(scale_channel(999), 254);
    assert_eq!(scale_channel(1000), 255);
    assert_eq!(scale_channel(5000), 255);
}

#[test]
fn color_tags_format() {
    assert_eq!(gray_tag(0), b"Gray(0)".to_vec());
    assert_eq!(gray_tag(45), b"Gray(45)".to_vec());
    assert_eq!(gray_tag(255), b"Gray(255)".to_vec());
    assert_eq!(rgb_tag(214, 255, 244), b"RGB(214, 255, 244)".to_vec());
    assert_eq!(rgb_tag(0, 7, 99), b"RGB(0, 7, 99)".to_vec());
    assert_eq!(target_fill_color(), b"RGB(214, 255, 244)".to_vec());
    assert_eq!(target_stroke_color(), b"RGB(0, 184, 148)".to_vec());
}

#[test]
fn byte_searching() {
    assert!(bytes_eq(b"cm", b"cm"));
    assert!(!bytes_eq(b"cm", b"cs"));
    assert!(!bytes_eq(b"cm", b"c"));
    assert!(contains_bytes(b"RGB(0, 184, 148) (DeviceRGB)", b"RGB(0, 184, 148)"));
    assert!(contains_bytes(b"abc", b""));
    assert!(!contains_bytes(b"ab", b"abc"));
    assert!(contains_bytes(b"aaab", b"aab"));
}

#[test]
fn composition_is_associative_in_practice() {
    // Whole linear factors: a doubling, a quarter-turn, a translation.
    let a = Transform { a: 2_000, b: 0, c: 0, d: 2_000, e: 7_000, f: -3_000 };
    let b = Transform { a: 0, b: 1_000, c: -1_000, d: 0, e: 500, f: 500 };
    let c = Transform { a: 1_000, b: 0, c: 0, d: 1_000, e: -250, f: 4_000 };
    let ab = a.checked_compose(&b).unwrap();
    let bc = b.checked_compose(&c).unwrap();
    let left = ab.checked_compose(&c).unwrap();
    let right = a.checked_compose(&bc).unwrap();
    assert_eq!(
        (left.a, left.b, left.c, left.d, left.e, left.f),
        (right.a, right.b, right.c, right.d, right.e, right.f)
    );
}

#[test]
fn identity_composition_changes_nothing() {
    let ident = Transform::identity();
    let m = Transform { a: 3, b: 1, c: -2, d: 5, e: 11, f: -13 };
    let r = ident.checked_compose(&m).unwrap();
    assert_eq!((r.a, r.b, r.c, r.d, r.e, r.f), (3, 1, -2, 5, 11, -13));
    let r2 = m.checked_compose(&ident).unwrap();
    assert_eq!((r2.a, r2.b, r2.c, r2.d, r2.e, r2.f), (3, 1, -2, 5, 11, -13));
}
