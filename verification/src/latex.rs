//! The annotation path: declared signature form fields.
//!
//! Instead of replaying drawing operators, this path reads the annotations
//! the caller collected from each page and keeps every signature field's
//! declared rectangle.  An annotation qualifies when its field type is
//! `Sig` and its rectangle array has exactly four entries, all numeric.

use vstd::prelude::*;
use crate::ops::{Operand, OperandV};
use crate::records::{DocumentAnalysisResult, RectangleData, RectV, rects_view, Point, Dimensions,
    CornerCoordinates};
use crate::state::opt_bytes_view;

verus! {

/// What the caller hands over for one annotation: its field type name and
/// its rectangle array, where present.
pub struct AnnotRecord {
    pub field_type: Option<Vec<u8>>,
    pub rect: Option<Vec<Operand>>,
}

/// Model of an annotation.
pub struct AnnotV {
    pub field_type: Option<Seq<u8>>,
    pub rect: Option<Seq<OperandV>>,
}

impl View for AnnotRecord {
    type V = AnnotV;

    open spec fn view(&self) -> AnnotV {
        AnnotV {
            field_type: opt_bytes_view(self.field_type),
            rect: match self.rect {
                Some(v) => Some(v@.map_values(|o: Operand| o@)),
                None => None,
            },
        }
    }
}

/// One signature field: its page, its two corners as declared, and its
/// declared width and height.
pub struct SignatureField {
    pub page: u32,
    pub x0: i64,
    pub y0: i64,
    pub x1: i64,
    pub y1: i64,
    pub width: i64,
    pub height: i64,
}

/// Model of a signature field.
pub struct SigV {
    pub page: int,
    pub x0: int,
    pub y0: int,
    pub x1: int,
    pub y1: int,
    pub width: int,
    pub height: int,
}

impl View for SignatureField {
    type V = SigV;

    open spec fn view(&self) -> SigV {
        SigV {
            page: self.page as int,
            x0: self.x0 as int,
            y0: self.y0 as int,
            x1: self.x1 as int,
            y1: self.y1 as int,
            width: self.width as int,
            height: self.height as int,
        }
    }
}

/// The view of a field list.
pub open spec fn sigs_view(s: Seq<SignatureField>) -> Seq<SigV> {
    s.map_values(|f: SignatureField| f@)
}

/// The field type tag of a signature field, `Sig`.
pub open spec fn spec_sig_name() -> Seq<u8> {
    seq![0x53u8, 0x69u8, 0x67u8]
}

/// The numeric entries of an operand list, in order, non-numbers dropped.
pub open spec fn nums_of(s: Seq<OperandV>) -> Seq<int>
    decreases s.len(),
{
    if s.len() == 0 {
        Seq::empty()
    } else {
        nums_of(s.drop_last()) + (match s.last() {
            OperandV::Num(v) => seq![v],
            _ => Seq::empty(),
        })
    }
}

/// Whether an annotation declares a usable signature field: field type
/// `Sig`, a rectangle of exactly four entries, all four numeric, with
/// representable extents.
pub open spec fn spec_is_sig(a: AnnotV) -> bool {
    &&& a.field_type == Some(spec_sig_name())
    &&& a.rect is Some
    &&& a.rect->0.len() == 4
    &&& nums_of(a.rect->0).len() == 4
    &&& i64::MIN <= nums_of(a.rect->0)[2] - nums_of(a.rect->0)[0] <= i64::MAX
    &&& i64::MIN <= nums_of(a.rect->0)[3] - nums_of(a.rect->0)[1] <= i64::MAX
}

/// The field a qualifying annotation on page `page_no` declares.
pub open spec fn spec_sig_of(page_no: int, a: AnnotV) -> SigV {
    let c = nums_of(a.rect->0);
    SigV {
        page: page_no,
        x0: c[0],
        y0: c[1],
        x1: c[2],
        y1: c[3],
        width: c[2] - c[0],
        height: c[3] - c[1],
    }
}

/// The signature fields of one page's annotations, in order.
pub open spec fn page_sigs(page_no: int, annots: Seq<AnnotV>) -> Seq<SigV>
    decreases annots.len(),
{
    if annots.len() == 0 {
        Seq::empty()
    } else {
        page_sigs(page_no, annots.drop_last()) + (if spec_is_sig(annots.last()) {
            seq![spec_sig_of(page_no, annots.last())]
        } else {
            Seq::empty()
        })
    }
}

/// The signature fields of a whole document; pages count from one.
pub open spec fn spec_detect(pages: Seq<Seq<AnnotV>>) -> Seq<SigV>
    decreases pages.len(),
{
    if pages.len() == 0 {
        Seq::empty()
    } else {
        spec_detect(pages.drop_last()) + page_sigs(pages.len() as int, pages.last())
    }
}

/// The view of a per-page annotation list.
pub open spec fn annots_view(s: Seq<Vec<AnnotRecord>>) -> Seq<Seq<AnnotV>> {
    s.map_values(|v: Vec<AnnotRecord>| v@.map_values(|a: AnnotRecord| a@))
}

/// Collects the numeric entries of an operand list.
fn collect_nums(v: &Vec<Operand>) -> (r: Vec<i64>)
    ensures
        r@.map_values(|x: i64| x as int) == nums_of(v@.map_values(|o: Operand| o@)),
{
    let ghost ov = v@.map_values(|o: Operand| o@);
    let mut r: Vec<i64> = Vec::new();
    let mut i: usize = 0;
    while i < v.len()
        invariant
            ov == v@.map_values(|o: Operand| o@),
            0 <= i <= v@.len(),
            r@.map_values(|x: i64| x as int) == nums_of(ov.subrange(0, i as int)),
        decreases v@.len() - i,
    {
        proof {
            let pre = ov.subrange(0, i as int);
            let cur = ov.subrange(0, i + 1);
            assert(cur.drop_last() =~= pre);
            assert(cur.last() == ov[i as int]);
        }
        match &v[i] {
            Operand::Num(val) => {
                r.push(*val);
                proof {
                    assert(r@.map_values(|x: i64| x as int) =~= nums_of(
                        ov.subrange(0, i + 1),
                    ));
                }
            },
            _ => {
                proof {
                    assert(r@.map_values(|x: i64| x as int) =~= nums_of(
                        ov.subrange(0, i + 1),
                    ));
                }
            },
        }
        i = i + 1;
    }
    proof {
        assert(ov.subrange(0, v@.len() as int) =~= ov);
    }
    r
}

/// Whether the field type is the signature tag.
fn is_sig_name(ft: &Option<Vec<u8>>) -> (r: bool)
    ensures
        r == (opt_bytes_view(*ft) == Some(spec_sig_name())),
{
    match ft {
        Some(n) => {
            let sig: [u8; 3] = [0x53, 0x69, 0x67];
            proof {
                assert(sig@ =~= spec_sig_name());
            }
            crate::bytes::bytes_eq(n.as_slice(), sig.as_slice())
        },
        None => false,
    }
}

/// Walks every page's annotations and keeps each declared signature
/// field, pages counted from one.
pub fn detect_signature_fields(pages: &Vec<Vec<AnnotRecord>>) -> (r: Vec<SignatureField>)
    requires
        pages@.len() < u32::MAX,
    ensures
        sigs_view(r@) == spec_detect(annots_view(pages@)),
{
    let ghost pv = annots_view(pages@);
    let mut out: Vec<SignatureField> = Vec::new();
    let mut i: usize = 0;
    while i < pages.len()
        invariant
            pages@.len() < u32::MAX,
            pv == annots_view(pages@),
            0 <= i <= pages@.len(),
            sigs_view(out@) == spec_detect(pv.subrange(0, i as int)),
        decreases pages@.len() - i,
    {
        let page_no = (i as u32) + 1;
        let annots = &pages[i];
        let ghost av = pv[i as int];
        proof {
            assert(av == annots@.map_values(|a: AnnotRecord| a@));
        }
        let mut j: usize = 0;
        while j < annots.len()
            invariant
                pv == annots_view(pages@),
                0 <= i < pages@.len(),
                pages@.len() < u32::MAX,
                page_no == i + 1,
                annots == &pages@[i as int],
                av == pv[i as int],
                av == annots@.map_values(|a: AnnotRecord| a@),
                0 <= j <= annots@.len(),
                sigs_view(out@) == spec_detect(pv.subrange(0, i as int)) + page_sigs(
                    i + 1,
                    av.subrange(0, j as int),
                ),
            decreases annots@.len() - j,
        {
            proof {
                let pre = av.subrange(0, j as int);
                let cur = av.subrange(0, j + 1);
                assert(cur.drop_last() =~= pre);
                assert(cur.last() == av[j as int]);
                assert(av[j as int] == annots@[j as int]@);
                if spec_is_sig(av[j as int]) {
                    assert(page_sigs(i + 1, cur) == page_sigs(i + 1, pre) + seq![
                        spec_sig_of(i + 1, av[j as int]),
                    ]);
                } else {
                    assert(page_sigs(i + 1, cur) =~= page_sigs(i + 1, pre));
                }
            }
            let a = &annots[j];
            if is_sig_name(&a.field_type) {
                match &a.rect {
                    Some(rect) if rect.len() == 4 => {
                        let coords = collect_nums(rect);
                        if coords.len() == 4 {
                            let x0 = coords[0];
                            let y0 = coords[1];
                            let x1 = coords[2];
                            let y1 = coords[3];
                            let w = x1 as i128 - x0 as i128;
                            let h = y1 as i128 - y0 as i128;
                            if w >= i64::MIN as i128 && w <= i64::MAX as i128 && h
                                >= i64::MIN as i128 && h <= i64::MAX as i128 {
                                let f = SignatureField {
                                    page: page_no,
                                    x0,
                                    y0,
                                    x1,
                                    y1,
                                    width: w as i64,
                                    height: h as i64,
                                };
                                let ghost prev_out = out@;
                                out.push(f);
                                proof {
                                    assert(spec_is_sig(av[j as int]));
                                    assert(f@ == spec_sig_of(i + 1, av[j as int]));
                                    assert(sigs_view(out@) =~= sigs_view(prev_out).push(f@));
                                    assert(sigs_view(prev_out).push(f@) =~= spec_detect(
                                        pv.subrange(0, i as int),
                                    ) + page_sigs(i + 1, av.subrange(0, j + 1)));
                                }
                            } else {
                                proof {
                                    assert(!spec_is_sig(av[j as int]));
                                }
                            }
                        } else {
                            proof {
                                assert(!spec_is_sig(av[j as int]));
                            }
                        }
                    },
                    _ => {
                        proof {
                            assert(!spec_is_sig(av[j as int]));
                        }
                    },
                }
            } else {
                proof {
                    assert(!spec_is_sig(av[j as int]));
                }
            }
            proof {
                assert(sigs_view(out@) =~= spec_detect(pv.subrange(0, i as int)) + page_sigs(
                    i + 1,
                    av.subrange(0, j + 1),
                ));
            }
            j = j + 1;
        }
        proof {
            assert(av.subrange(0, annots@.len() as int) =~= av);
            let prev = pv.subrange(0, i as int);
            let cur = pv.subrange(0, i + 1);
            assert(cur.drop_last() =~= prev);
            assert(cur.last() == pv[i as int]);
            assert(cur.len() == i + 1);
        }
        i = i + 1;
    }
    proof {
        assert(pv.subrange(0, pages@.len() as int) =~= pv);
    }
    out
}

/// The tag reported for a declared signature field, `SignatureField`.
pub open spec fn spec_signature_field_tag() -> Seq<u8> {
    seq![0x53u8, 0x69u8, 0x67u8, 0x6eu8, 0x61u8, 0x74u8, 0x75u8, 0x72u8, 0x65u8, 0x46u8, 0x69u8,
        0x65u8, 0x6cu8, 0x64u8]
}

/// Builds the tag `SignatureField`.
pub fn signature_field_tag() -> (r: Vec<u8>)
    ensures
        r@ == spec_signature_field_tag(),
{
    let mut out: Vec<u8> = Vec::new();
    out.push(0x53);
    out.push(0x69);
    out.push(0x67);
    out.push(0x6e);
    out.push(0x61);
    out.push(0x74);
    out.push(0x75);
    out.push(0x72);
    out.push(0x65);
    out.push(0x46);
    out.push(0x69);
    out.push(0x65);
    out.push(0x6c);
    out.push(0x64);
    proof {
        assert(out@ =~= spec_signature_field_tag());
    }
    out
}

/// The record one signature field turns into: unknown colors, unit widths,
/// the declared corners with the y pair ordered.
pub open spec fn spec_sig_rect(f: SigV) -> RectV {
    RectV {
        operation: 0,
        pos_x: f.x0,
        pos_y: f.y0,
        width: f.width,
        height: f.height,
        x1: f.x0,
        y1: if f.y0 <= f.y1 {
            f.y0
        } else {
            f.y1
        },
        x2: f.x1,
        y2: if f.y0 <= f.y1 {
            f.y1
        } else {
            f.y0
        },
        fill_color: crate::ops::spec_paint_mode_tag(crate::ops::PaintMode::Unknown),
        stroke_color: crate::ops::spec_paint_mode_tag(crate::ops::PaintMode::Unknown),
        line_width: 1000,
        border: 1000,
        font_name: None,
        operation_type: spec_signature_field_tag(),
        fill_color_operands: Seq::empty(),
        page: f.page,
        fill_color_override: None,
    }
}

/// Turns the detected signature fields of a document into a document
/// result; the caller supplies the page count it saw.
pub fn analyze_latex_annotations(pages: &Vec<Vec<AnnotRecord>>, total_pages: u32) -> (r:
    DocumentAnalysisResult)
    requires
        pages@.len() < u32::MAX,
    ensures
        r.total_pages == total_pages,
        rects_view(r.rectangles@) == spec_detect(annots_view(pages@)).map_values(
            |f: SigV| spec_sig_rect(f),
        ),
        r.total_rectangles == r.rectangles@.len(),
{
    let fields = detect_signature_fields(pages);
    let ghost fv = spec_detect(annots_view(pages@));
    let mut rectangles: Vec<RectangleData> = Vec::new();
    let mut i: usize = 0;
    while i < fields.len()
        invariant
            sigs_view(fields@) == fv,
            0 <= i <= fields@.len(),
            rects_view(rectangles@) == fv.subrange(0, i as int).map_values(
                |f: SigV| spec_sig_rect(f),
            ),
        decreases fields@.len() - i,
    {
        let f = &fields[i];
        let rd = RectangleData {
            operation: 0,
            position: Point { x: f.x0, y: f.y0 },
            dimensions: Dimensions { width: f.width, height: f.height },
            corners: CornerCoordinates {
                x1: f.x0,
                y1: if f.y0 <= f.y1 {
                    f.y0
                } else {
                    f.y1
                },
                x2: f.x1,
                y2: if f.y0 <= f.y1 {
                    f.y1
                } else {
                    f.y0
                },
            },
            fill_color: crate::ops::paint_mode_tag(crate::ops::PaintMode::Unknown),
            stroke_color: crate::ops::paint_mode_tag(crate::ops::PaintMode::Unknown),
            line_width: 1000,
            border: 1000,
            font_name: None,
            operation_type: signature_field_tag(),
            fill_color_operands: Vec::new(),
            page: f.page,
            fill_color_override: None,
        };
        proof {
            assert(fv[i as int] == fields@[i as int]@);
            assert(rd@.fill_color_operands =~= Seq::<int>::empty());
            assert(rd@ == spec_sig_rect(fv[i as int]));
        }
        let ghost prev_rects = rectangles@;
        rectangles.push(rd);
        proof {
            let pre = fv.subrange(0, i as int);
            let cur = fv.subrange(0, i + 1);
            assert(cur.drop_last() =~= pre);
            assert(cur.last() == fv[i as int]);
            assert(rects_view(rectangles@) =~= rects_view(prev_rects).push(rd@));
            assert(rects_view(prev_rects).push(rd@) =~= cur.map_values(
                |f: SigV| spec_sig_rect(f),
            ));
        }
        i = i + 1;
    }
    proof {
        assert(fv.subrange(0, fields@.len() as int) =~= fv);
    }
    let total_rectangles = rectangles.len();
    DocumentAnalysisResult { total_pages, total_rectangles, rectangles }
}

} // verus!
