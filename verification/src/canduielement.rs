//! The candidates for a host that draws them itself.

use vstd::prelude::*;
use vstd::string::*;

use crate::com::E_FAIL;

verus! {

/// What the element is called.
pub const ELEMENT_DESCRIPTION: &'static str = "HuFu 虎符候选";

/// The id of the element.
pub const ELEMENT_GUID: u128 = 0x8f5c2a20_3e77_4b9c_a1d4_9e0b7c2f5a88;

/// What may change from frame to frame: the count, the selection, the texts and the page.
pub const UPDATED_FLAGS: u32 = 30;

/// The candidates, as the host reads them. `D` is the host's document.
#[derive(Debug)]
pub struct CandUiState<D> {
    pub items: Vec<String>,
    pub selected: usize,
    pub shown: bool,
    pub doc: Option<D>,
}

/// The element that the host asks.
#[derive(Debug)]
pub struct HuFuCandElement<D> {
    pub state: CandUiState<D>,
}

impl<D> HuFuCandElement<D> {
    /// No candidates, not shown, in no document.
    pub fn new() -> (r: HuFuCandElement<D>)
        ensures
            r.state.items@ == Seq::<String>::empty(),
            r.state.selected == 0,
            !r.state.shown,
            r.state.doc is None,
    {
        HuFuCandElement {
            state: CandUiState { items: Vec::new(), selected: 0, shown: false, doc: None },
        }
    }

    /// Shows the element, or does not.
    pub fn set_shown(&mut self, shown: bool)
        ensures
            final(self).state == (CandUiState { shown, ..old(self).state }),
    {
        self.state.shown = shown;
    }

    /// Whether the element is shown.
    pub fn is_shown(&self) -> (r: bool)
        ensures
            r == self.state.shown,
    {
        self.state.shown
    }

    /// The document that the candidates belong to.
    pub fn get_document_mgr(&self) -> (r: Result<&D, i32>)
        ensures
            match self.state.doc {
                Some(d) => r == Ok::<&D, i32>(&d),
                None => r == Err::<&D, i32>(E_FAIL),
            },
    {
        match &self.state.doc {
            Some(d) => Ok(d),
            None => Err(E_FAIL),
        }
    }

    /// The number of candidates, in its low 32 bits.
    pub fn get_count(&self) -> (r: u32)
        ensures
            r == self.state.items.len() as u32,
            self.state.items.len() <= u32::MAX ==> r == self.state.items.len(),
    {
        #[verifier::truncate]
        let n: u32 = self.state.items.len() as u32;
        n
    }

    /// The candidate that is selected, in its low 32 bits.
    pub fn get_selection(&self) -> (r: u32)
        ensures
            r == self.state.selected as u32,
            self.state.selected <= u32::MAX ==> r == self.state.selected,
    {
        #[verifier::truncate]
        let n: u32 = self.state.selected as u32;
        n
    }

    /// A candidate's text.
    pub fn get_string(&self, index: u32) -> (r: Result<String, i32>)
        ensures
            match r {
                Ok(s) => index < self.state.items.len() && s@ == self.state.items[index as int]@,
                Err(e) => index >= self.state.items.len() && e == E_FAIL,
            },
    {
        let i: usize = index as usize;
        if i < self.state.items.len() {
            Ok(self.state.items[i].as_str().to_owned())
        } else {
            Err(E_FAIL)
        }
    }

    /// The pages: all candidates are on one, which begins at the first of them. What is returned
    /// is the number of pages and, where there is room for it, where the page begins.
    pub fn get_page_index(&self, room: u32) -> (r: (u32, Option<u32>))
        ensures
            r == (1u32, if room >= 1 {
                Some(0u32)
            } else {
                None
            }),
    {
        (
            1,
            if room >= 1 {
                Some(0)
            } else {
                None
            },
        )
    }

    /// The page that is shown.
    pub fn get_current_page(&self) -> (r: u32)
        ensures
            r == 0,
    {
        0
    }
}

/// How often hosts have asked.
#[derive(Clone, Copy, Debug, PartialEq, Eq, Structural)]
pub struct HostQueries {
    pub count: u32,
}

impl HostQueries {
    /// Counts a question, and gives its number where it is among the first, which are noted.
    pub fn note(&mut self) -> (r: Option<u32>)
        requires
            old(self).count < u32::MAX,
        ensures
            final(self).count == old(self).count + 1,
            r == if final(self).count <= 60 {
                Some(final(self).count)
            } else {
                None
            },
    {
        self.count = self.count + 1;
        if self.count <= 60 {
            Some(self.count)
        } else {
            None
        }
    }
}

} // verus!
