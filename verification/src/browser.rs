//! The browser: owner of the pages.

use crate::renderer::page::Page;
use vstd::prelude::*;

verus! {

/// The browser and its pages, one of which is active.
#[derive(Debug, Clone, PartialEq, Eq)]
pub struct Browser {
    pub active_page_index: usize,
    pub pages: Vec<Page>,
}

impl Browser {
    /// The active page exists.
    pub open spec fn wf(&self) -> bool {
        self.active_page_index < self.pages@.len()
    }

    /// A browser with one empty page, which is active.
    pub fn new() -> (b: Self)
        ensures
            b.wf(),
            b.active_page_index == 0,
            b.pages@.len() == 1,
            b.pages@[0].frame is None,
    {
        let mut pages: Vec<Page> = Vec::new();
        pages.push(Page::new());
        Self { active_page_index: 0, pages }
    }

    /// The active page.
    pub fn current_page(&self) -> (p: &Page)
        requires
            self.wf(),
        ensures
            *p == self.pages@[self.active_page_index as int],
    {
        &self.pages[self.active_page_index]
    }

    /// The active page, to change it.
    pub fn current_page_mut(&mut self) -> (p: &mut Page)
        requires
            old(self).wf(),
        ensures
            *p == old(self).pages@[old(self).active_page_index as int],
            final(self).active_page_index == old(self).active_page_index,
            final(self).pages@ == old(self).pages@.update(
                old(self).active_page_index as int,
                *final(p),
            ),
    {
        &mut self.pages[self.active_page_index]
    }
}

} // verus!
