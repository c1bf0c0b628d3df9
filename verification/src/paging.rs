//! Page-by-page loading of the account message list and of the search
//! results: which page to ask for next, and what an answer does to the list.

use vstd::prelude::*;

verus! {

/// Page size of the account message list.
pub const PAGE_SIZE: u32 = 50;

/// Page size of the search results.
pub const SEARCH_PAGE_SIZE: u32 = 25;

/// A list that loads page by page. `cursor` is the offset of the next page:
/// for the account list the number of rows loaded, for search the number of
/// hits consumed (a hit whose message is gone leaves no row).
#[derive(Debug)]
pub struct Pager<T> {
    pub rows: Vec<T>,
    pub error: Option<String>,
    pub loading: bool,
    pub reached_end: bool,
    pub cursor: u32,
    pub page_size: u32,
}

/// What the panel under the header shows.
#[derive(Clone, Copy, Debug, PartialEq, Eq)]
pub enum PagerPanel {
    /// Nothing loaded yet and a load is running.
    Loading,
    /// Loaded, and there is nothing.
    Empty,
    /// Nothing loaded because the load failed; the error banner says why.
    Nothing,
    /// The rows, with a "Load more" button unless the end was reached.
    Rows { load_more: bool },
}

impl<T> Pager<T> {
    /// A list about to make its first load.
    pub fn new(page_size: u32) -> (r: Pager<T>)
        ensures
            r.rows@.len() == 0,
            r.error is None,
            r.loading,
            !r.reached_end,
            r.cursor == 0,
            r.page_size == page_size,
    {
        Pager { rows: Vec::new(), error: None, loading: true, reached_end: false, cursor: 0, page_size }
    }

    /// "Load more": the offset to ask for, or `None` while a load runs.
    pub fn load_more(&mut self) -> (offset: Option<u32>)
        ensures
            old(self).loading ==> offset is None && final(self)@ == old(self)@,
            !old(self).loading ==> offset == Some(old(self).cursor),
            !old(self).loading ==> final(self)@ == (PagerView { loading: true, error: None, ..old(self)@ }),
    {
        if self.loading {
            return None;
        }
        self.loading = true;
        self.error = None;
        Some(self.cursor)
    }

    /// "Refresh": reload from the first page, or `None` while a load runs.
    pub fn refresh(&mut self) -> (offset: Option<u32>)
        ensures
            old(self).loading ==> offset is None && final(self)@ == old(self)@,
            !old(self).loading ==> offset == Some(0u32),
            !old(self).loading ==> final(self)@ == (PagerView { loading: true, error: None, ..old(self)@ }),
    {
        if self.loading {
            return None;
        }
        self.loading = true;
        self.error = None;
        Some(0)
    }

    /// A page arrived: `count` entries were consumed at the server and
    /// `page` holds the rows made of them. The first page (`append` false)
    /// replaces the rows; a further page is added after them. A failed load
    /// keeps the rows and shows the error.
    pub fn finish(&mut self, reply: Result<(Vec<T>, u32), String>, append: bool)
        requires
            append ==> (reply matches Ok((_, count)) ==> old(self).cursor + count <= u32::MAX),
        ensures
            !final(self).loading,
            final(self).page_size == old(self).page_size,
            match reply {
                Ok((page, count)) => {
                    &&& final(self).reached_end == (count < old(self).page_size)
                    &&& final(self).error == old(self).error
                    &&& append ==> final(self).rows@ == old(self).rows@ + page@
                    &&& append ==> final(self).cursor == old(self).cursor + count
                    &&& !append ==> final(self).rows@ == page@ && final(self).cursor == count
                },
                Err(e) => final(self)@ == (PagerView { error: Some(e), loading: false, ..old(self)@ }),
            },
    {
        match reply {
            Ok((page, count)) => {
                self.reached_end = count < self.page_size;
                if append {
                    let mut page = page;
                    self.rows.append(&mut page);
                    self.cursor = self.cursor + count;
                } else {
                    self.rows = page;
                    self.cursor = count;
                }
            },
            Err(e) => {
                self.error = Some(e);
            },
        }
        self.loading = false;
    }

    /// What the panel shows.
    pub fn panel(&self) -> (r: PagerPanel)
        ensures
            r == (if self.rows@.len() == 0 && self.loading {
                PagerPanel::Loading
            } else if self.rows@.len() == 0 && self.error is None {
                PagerPanel::Empty
            } else if self.rows@.len() == 0 {
                PagerPanel::Nothing
            } else {
                PagerPanel::Rows { load_more: !self.reached_end }
            }),
    {
        let is_empty = self.rows.len() == 0;
        if is_empty && self.loading {
            PagerPanel::Loading
        } else if is_empty && self.error.is_none() {
            PagerPanel::Empty
        } else if is_empty {
            PagerPanel::Nothing
        } else {
            PagerPanel::Rows { load_more: !self.reached_end }
        }
    }
}

/// The state of a pager as plain values.
pub struct PagerView<T> {
    pub rows: Seq<T>,
    pub error: Option<String>,
    pub loading: bool,
    pub reached_end: bool,
    pub cursor: nat,
    pub page_size: nat,
}

impl<T> View for Pager<T> {
    type V = PagerView<T>;

    open spec fn view(&self) -> PagerView<T> {
        PagerView {
            rows: self.rows@,
            error: self.error,
            loading: self.loading,
            reached_end: self.reached_end,
            cursor: self.cursor as nat,
            page_size: self.page_size as nat,
        }
    }
}

/// In the account list every page consumes as many entries as it has rows,
/// so the next offset stays the number of rows shown: a further page
/// neither skips nor repeats a message.
pub proof fn lemma_account_list_offset<T>(rows: Seq<T>, cursor: nat, page: Seq<T>, append: bool)
    requires
        cursor == rows.len(),
    ensures
        (if append { cursor + page.len() } else { page.len() }) == (if append { rows + page } else { page }).len(),
{
}

} // verus!
