//! The page/document aggregator for the content-stream path.
//!
//! The caller resolves each page's content streams through the document
//! model and tokenizes them; this module replays every stream through the
//! interpreter and folds the kept rectangles, in page order, into one
//! document result.  A stream that failed to decode is simply absent from
//! its page's list and contributes nothing.

use vstd::prelude::*;
use crate::interp::{CfgV, run, ops_view, cfg_view, analyze_content_operations};
use crate::ops::{Operation, OperationV, Operand, OperandV, spec_operand_num};
use crate::records::{DocumentAnalysisResult, RectangleData, RectV, rects_view};
use crate::state::opt_bytes_view;

verus! {

/// One page's decoded content: its number and the operation list of each of
/// its successfully decoded streams.
pub struct PageContent {
    pub page_number: u32,
    pub streams: Vec<Vec<Operation>>,
}

/// Model of one page's content.
pub struct PageContentV {
    pub page_number: int,
    pub streams: Seq<Seq<OperationV>>,
}

impl View for PageContent {
    type V = PageContentV;

    open spec fn view(&self) -> PageContentV {
        PageContentV {
            page_number: self.page_number as int,
            streams: self.streams@.map_values(|s: Vec<Operation>| ops_view(s@)),
        }
    }
}

/// The view of a page list.
pub open spec fn pages_view(s: Seq<PageContent>) -> Seq<PageContentV> {
    s.map_values(|p: PageContent| p@)
}

/// The rectangles the interpreter keeps over a list of streams, in order.
pub open spec fn streams_rects(cfg: CfgV, page: int, streams: Seq<Seq<OperationV>>) -> Seq<RectV>
    decreases streams.len(),
{
    if streams.len() == 0 {
        Seq::empty()
    } else {
        streams_rects(cfg, page, streams.drop_last()) + run(
            cfg,
            page,
            streams.last(),
            streams.last().len() as int,
        ).rects
    }
}

/// The rectangles of a whole document, pages in order.
pub open spec fn pages_rects(cfg: CfgV, pages: Seq<PageContentV>) -> Seq<RectV>
    decreases pages.len(),
{
    if pages.len() == 0 {
        Seq::empty()
    } else {
        pages_rects(cfg, pages.drop_last()) + streams_rects(
            cfg,
            pages.last().page_number,
            pages.last().streams,
        )
    }
}

/// The per-page rectangle counts summed over a document.
pub open spec fn pages_rects_sum(cfg: CfgV, pages: Seq<PageContentV>) -> int
    decreases pages.len(),
{
    if pages.len() == 0 {
        0
    } else {
        pages_rects_sum(cfg, pages.drop_last()) + streams_rects(
            cfg,
            pages.last().page_number,
            pages.last().streams,
        ).len()
    }
}

/// The flattened rectangle list is exactly as long as the per-page counts
/// say together: the document total is the sum of the page totals.
pub proof fn lemma_total_is_page_sum(cfg: CfgV, pages: Seq<PageContentV>)
    ensures
        pages_rects(cfg, pages).len() == pages_rects_sum(cfg, pages),
    decreases pages.len(),
{
    if pages.len() > 0 {
        lemma_total_is_page_sum(cfg, pages.drop_last());
    }
}

/// Replays every page of a document and folds the kept rectangles, in page
/// order, into one document result whose total count equals the length of
/// the flattened list.
pub fn analyze_typst_pages(
    pages: &Vec<PageContent>,
    target_fill_color: &Option<Vec<u8>>,
    target_stroke_color: &Option<Vec<u8>>,
) -> (r: DocumentAnalysisResult)
    requires
        pages@.len() <= u32::MAX,
    ensures
        r.total_pages == pages@.len(),
        rects_view(r.rectangles@) == pages_rects(
            cfg_view(*target_fill_color, *target_stroke_color),
            pages_view(pages@),
        ),
        r.total_rectangles == r.rectangles@.len(),
{
    let ghost cfg = cfg_view(*target_fill_color, *target_stroke_color);
    let ghost pv = pages_view(pages@);
    let mut all: Vec<RectangleData> = Vec::new();
    let mut i: usize = 0;
    while i < pages.len()
        invariant
            pages@.len() <= u32::MAX,
            cfg == cfg_view(*target_fill_color, *target_stroke_color),
            pv == pages_view(pages@),
            0 <= i <= pages@.len(),
            rects_view(all@) == pages_rects(cfg, pv.subrange(0, i as int)),
        decreases pages@.len() - i,
    {
        let page = &pages[i];
        proof {
            assert(pv[i as int] == page@);
        }
        let mut j: usize = 0;
        while j < page.streams.len()
            invariant
                cfg == cfg_view(*target_fill_color, *target_stroke_color),
                pv == pages_view(pages@),
                0 <= i < pages@.len(),
                page == &pages[i as int],
                pv[i as int] == page@,
                0 <= j <= page.streams@.len(),
                rects_view(all@) == pages_rects(cfg, pv.subrange(0, i as int)) + streams_rects(
                    cfg,
                    page@.page_number,
                    page@.streams.subrange(0, j as int),
                ),
            decreases page.streams@.len() - j,
        {
            let pa = analyze_content_operations(
                &page.streams[j],
                page.page_number,
                target_fill_color,
                target_stroke_color,
            );
            let mut emitted = pa.rectangles;
            proof {
                assert(page@.streams[j as int] == ops_view(page.streams@[j as int]@));
                let pre = page@.streams.subrange(0, j as int);
                let cur = page@.streams.subrange(0, j + 1);
                assert(cur.drop_last() =~= pre);
                assert(cur.last() == page@.streams[j as int]);
                assert(rects_view(all@ + emitted@) =~= rects_view(all@) + rects_view(emitted@));
            }
            all.append(&mut emitted);
            j = j + 1;
        }
        proof {
            assert(page@.streams.subrange(0, page.streams@.len() as int) =~= page@.streams);
            let prev = pv.subrange(0, i as int);
            let cur = pv.subrange(0, i + 1);
            assert(cur.drop_last() =~= prev);
            assert(cur.last() == pv[i as int]);
        }
        i = i + 1;
    }
    proof {
        assert(pv.subrange(0, pages@.len() as int) =~= pv);
    }
    let total_rectangles = all.len();
    let total_pages = pages.len() as u32;
    DocumentAnalysisResult { total_pages, total_rectangles, rectangles: all }
}

/// The height a page declares: the difference of the upper and lower y
/// entries of its media box, or of its crop box when no usable media box
/// is present; a difference that does not fit the coordinate range reads
/// as absent.
pub open spec fn spec_box_height(b: Seq<OperandV>) -> int {
    spec_operand_num(b[3]) - spec_operand_num(b[1])
}

/// The declared page height resolved over both boxes.
pub open spec fn spec_page_height(m: Option<Seq<OperandV>>, c: Option<Seq<OperandV>>) -> Option<
    int,
> {
    if m is Some && m->0.len() >= 4 {
        if i64::MIN <= spec_box_height(m->0) <= i64::MAX {
            Some(spec_box_height(m->0))
        } else {
            None
        }
    } else if c is Some && c->0.len() >= 4 {
        if i64::MIN <= spec_box_height(c->0) <= i64::MAX {
            Some(spec_box_height(c->0))
        } else {
            None
        }
    } else {
        None
    }
}

/// The view of an optional operand list.
pub open spec fn opt_operands_view(o: Option<Vec<Operand>>) -> Option<Seq<OperandV>> {
    match o {
        Some(v) => Some(v@.map_values(|x: Operand| x@)),
        None => None,
    }
}

/// Reads the height of one box if it has enough entries.
fn box_height(b: &Vec<Operand>) -> (r: Option<i64>)
    requires
        b@.len() >= 4,
    ensures
        ({
            let bv = b@.map_values(|x: Operand| x@);
            &&& (i64::MIN <= spec_box_height(bv) <= i64::MAX ==> r == Some(
                (spec_box_height(bv)) as i64,
            ))
            &&& (!(i64::MIN <= spec_box_height(bv) <= i64::MAX) ==> r is None)
        }),
{
    let lly = crate::ops::operand_num(&b[1]);
    let ury = crate::ops::operand_num(&b[3]);
    let d = ury as i128 - lly as i128;
    if d < i64::MIN as i128 || d > i64::MAX as i128 {
        None
    } else {
        Some(d as i64)
    }
}

/// Resolves the declared page height from the media box, falling back to
/// the crop box.
pub fn get_page_height(media_box: &Option<Vec<Operand>>, crop_box: &Option<Vec<Operand>>) -> (r:
    Option<i64>)
    ensures
        ({
            let s = spec_page_height(
                opt_operands_view(*media_box),
                opt_operands_view(*crop_box),
            );
            match r {
                Some(v) => s == Some(v as int),
                None => s is None,
            }
        }),
{
    match media_box {
        Some(b) if b.len() >= 4 => box_height(b),
        _ => {
            match crop_box {
                Some(b) if b.len() >= 4 => box_height(b),
                _ => None,
            }
        },
    }
}

/// The engines an analysis can run under.
#[derive(Clone, Copy, PartialEq, Eq, Structural, Debug)]
pub enum Engine {
    Latex,
    Typst,
}

/// The engine an optional engine name selects: `latex` chooses the
/// annotation walk; everything else, the absent name included, chooses the
/// content-stream interpreter.
pub open spec fn spec_select_engine(e: Option<Seq<u8>>) -> Engine {
    match e {
        Some(n) => if n == seq![0x6cu8, 0x61u8, 0x74u8, 0x65u8, 0x78u8] {
            Engine::Latex
        } else {
            Engine::Typst
        },
        None => Engine::Typst,
    }
}

/// Resolves the engine name.
pub fn select_engine(engine: &Option<Vec<u8>>) -> (r: Engine)
    ensures
        r == spec_select_engine(opt_bytes_view(*engine)),
{
    match engine {
        Some(n) => {
            let latex: [u8; 5] = [0x6c, 0x61, 0x74, 0x65, 0x78];
            proof {
                assert(latex@ =~= seq![0x6cu8, 0x61u8, 0x74u8, 0x65u8, 0x78u8]);
            }
            if crate::bytes::bytes_eq(n.as_slice(), latex.as_slice()) {
                Engine::Latex
            } else {
                Engine::Typst
            }
        },
        None => Engine::Typst,
    }
}

} // verus!
