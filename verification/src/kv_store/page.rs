//! The page: the unit of storage and of fault accounting.

use crate::clock::unix_time_secs;
use vstd::prelude::*;

verus! {

/// What a page holds, as plain mathematical values.
pub struct PageView {
    pub id: u64,
    pub key: Seq<char>,
    pub value: Seq<u8>,
    pub access_count: u32,
    pub last_accessed: u64,
    pub created_at: u64,
}

/// What a page's summary holds, as plain mathematical values.
pub struct PageInfoView {
    pub id: u64,
    pub key: Seq<char>,
    pub size: usize,
    pub access_count: u32,
    pub last_accessed: u64,
    pub created_at: u64,
}

impl PageView {
    /// A page as it is right after its creation at time `now`.
    pub open spec fn fresh(id: u64, key: Seq<char>, value: Seq<u8>, now: u64) -> PageView {
        PageView { id, key, value, access_count: 0, last_accessed: now, created_at: now }
    }

    /// The page after one more access at time `now`.
    pub open spec fn accessed(self, now: u64) -> PageView {
        PageView { access_count: (self.access_count + 1) as u32, last_accessed: now, ..self }
    }

    /// The page with its value replaced.
    pub open spec fn with_value(self, value: Seq<u8>) -> PageView {
        PageView { value, ..self }
    }

    /// The summary of the page: everything but the value, of which only the
    /// length is kept.
    pub open spec fn info(self) -> PageInfoView {
        PageInfoView {
            id: self.id,
            key: self.key,
            size: self.value.len() as usize,
            access_count: self.access_count,
            last_accessed: self.last_accessed,
            created_at: self.created_at,
        }
    }
}

/// A read-only summary of a page, for status reports.
#[derive(Debug)]
pub struct PageInfo {
    pub id: u64,
    pub key: String,
    pub size: usize,
    pub access_count: u32,
    pub last_accessed: u64,
    pub created_at: u64,
}

/// A page: its identity, its key, its value and the record of its accesses.
#[derive(Debug)]
pub struct Page {
    pub id: u64,
    pub key: String,
    pub value: Vec<u8>,
    pub access_count: u32,
    pub last_accessed: u64,
    pub created_at: u64,
}

impl View for PageInfo {
    type V = PageInfoView;

    open spec fn view(&self) -> PageInfoView {
        PageInfoView {
            id: self.id,
            key: self.key@,
            size: self.size,
            access_count: self.access_count,
            last_accessed: self.last_accessed,
            created_at: self.created_at,
        }
    }
}

impl View for Page {
    type V = PageView;

    open spec fn view(&self) -> PageView {
        PageView {
            id: self.id,
            key: self.key@,
            value: self.value@,
            access_count: self.access_count,
            last_accessed: self.last_accessed,
            created_at: self.created_at,
        }
    }
}

impl Clone for PageInfo {
    fn clone(&self) -> (copy: Self)
        ensures
            copy@ == self@,
    {
        PageInfo {
            id: self.id,
            key: self.key.clone(),
            size: self.size,
            access_count: self.access_count,
            last_accessed: self.last_accessed,
            created_at: self.created_at,
        }
    }
}

impl Clone for Page {
    fn clone(&self) -> (copy: Self)
        ensures
            copy@ == self@,
    {
        Page {
            id: self.id,
            key: self.key.clone(),
            value: self.value.clone(),
            access_count: self.access_count,
            last_accessed: self.last_accessed,
            created_at: self.created_at,
        }
    }
}

impl Page {
    /// A page created at time `now`: never accessed, last touched when created.
    pub fn with_timestamp(id: u64, key: String, value: Vec<u8>, now: u64) -> (page: Self)
        ensures
            page@ == PageView::fresh(id, key@, value@, now),
    {
        Self { id, key, value, access_count: 0, last_accessed: now, created_at: now }
    }

    /// A page created now, by the system clock.
    pub fn new(id: u64, key: String, value: Vec<u8>) -> (page: Self)
        ensures
            page@ == PageView::fresh(id, key@, value@, page.created_at),
    {
        let now = unix_time_secs();
        Self::with_timestamp(id, key, value, now)
    }

    /// Counts one access at time `now`.
    pub fn access_at(&mut self, now: u64)
        requires
            old(self).access_count < u32::MAX,
        ensures
            final(self)@ == old(self)@.accessed(now),
    {
        self.access_count += 1;
        self.last_accessed = now;
    }

    /// Counts one access now, by the system clock.
    pub fn access(&mut self)
        requires
            old(self).access_count < u32::MAX,
        ensures
            final(self)@ == old(self)@.accessed(final(self).last_accessed),
    {
        let now = unix_time_secs();
        self.access_at(now);
    }

    /// The summary of the page.
    pub fn to_info(&self) -> (info: PageInfo)
        ensures
            info@ == self@.info(),
    {
        PageInfo {
            id: self.id,
            key: self.key.clone(),
            size: self.value.len(),
            access_count: self.access_count,
            last_accessed: self.last_accessed,
            created_at: self.created_at,
        }
    }
}

} // verus!
