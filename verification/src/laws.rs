//! What holds of the viewer as a whole.
//!
//! Each law relates several steps of [`Model`], or a step and what the reader sees
//! of it. The viewer's functions do exactly these steps.

use vstd::prelude::*;

use crate::layout::{
    law_rows_keep_page_order, lemma_specs_within, tallest, PageSize, RowSpec,
};
use crate::model::Model;

pub mod ahead;
pub mod anew;
pub mod changes;
pub mod document;
pub mod events;
pub mod images;
pub mod measure;
pub mod navigation;
pub mod paging;
pub mod requests;
pub mod scale;
pub mod shown;

verus! {

/// Heights are not negative.
pub proof fn lemma_tallest(specs: Seq<RowSpec>, pages: Seq<PageSize>)
    ensures
        tallest(specs, pages) >= 0,
    decreases specs.len(),
{
    if specs.len() > 0 {
        lemma_tallest(specs.drop_last(), pages);
    }
}

/// A well-formed viewer has rows exactly if the document has pages, and rows have
/// a height.
pub proof fn lemma_rows(m: Model)
    requires
        m.wf(),
    ensures
        m.specs().len() == 0 <==> m.pages.len() == 0,
        m.pitch() > 0,
        forall|row: int|
            0 <= row < m.specs().len() ==> 0 <= (#[trigger] m.specs()[row]).left < m.pages.len(),
{
    law_rows_keep_page_order(m.pages.len() as int, m.spread);
    lemma_specs_within(m.pages.len() as int, m.spread);
    lemma_tallest(m.specs(), m.pages);
    assert(m.ref_h() * m.zoom >= 0) by (nonlinear_arith)
        requires
            m.ref_h() >= 0,
            m.zoom >= 0,
    ;
}

}
