//! The decisions of the process memory layer. The operating-system calls are
//! made by the caller, which hands their results to these steps.

use crate::scanner::VirtualPage;
use vstd::prelude::*;

verus! {

/// Highest address of the 48-bit user space.
pub const USER_SPACE_END: u64 = 0x7FFF_FFFF_FFFF;

/// Most regions a walk of the address space looks at.
pub const MAX_REGIONS: usize = 20000;

/// What the operating system reports about the region holding an address.
#[derive(Clone, Copy)]
pub struct RegionInfo {
    pub base: usize,
    pub size: usize,
    /// The region is backed by storage.
    pub committed: bool,
    /// The region's protection allows read-write access (possibly with
    /// execute).
    pub writable: bool,
}

/// A walk over a process's address space, region by region, from address 0.
pub struct PageWalk {
    /// Address of the next query.
    pub cursor: usize,
    /// Regions looked at so far.
    pub steps: usize,
    pub done: bool,
    /// The committed, writable regions found so far.
    pub pages: Vec<VirtualPage>,
}

/// The page a region contributes, if it is committed and writable.
pub open spec fn region_page(r: RegionInfo) -> Seq<VirtualPage> {
    if r.committed && r.writable && r.base + r.size <= usize::MAX {
        seq![VirtualPage { start: r.base, size: r.size }]
    } else {
        seq![]
    }
}

/// The walk stops after region `r`, queried at `cursor`, when the next
/// address would wrap or not move forward, lies beyond user space, or the
/// region cap is reached.
pub open spec fn stops_after(cursor: int, steps: int, r: RegionInfo) -> bool {
    let next = r.base + r.size;
    next > usize::MAX || next <= cursor || next > USER_SPACE_END || steps + 1 >= MAX_REGIONS
}

impl PageWalk {
    /// Every page found fits the address space.
    pub open spec fn wf(&self) -> bool {
        &&& self.steps <= MAX_REGIONS
        &&& !self.done ==> self.steps < MAX_REGIONS
        &&& forall|i: int|
            0 <= i < self.pages@.len() ==> #[trigger] self.pages@[i].start + self.pages@[i].size
                <= usize::MAX
    }

    pub fn new() -> (r: PageWalk)
        ensures
            r.wf(),
            r.cursor == 0,
            r.steps == 0,
            !r.done,
            r.pages@.len() == 0,
    {
        PageWalk { cursor: 0, steps: 0, done: false, pages: Vec::new() }
    }

    /// The address to query next, or `None` once the walk is over.
    pub fn next_query(&self) -> (r: Option<usize>)
        ensures
            r == (if self.done {
                None
            } else {
                Some(self.cursor)
            }),
    {
        if self.done {
            None
        } else {
            Some(self.cursor)
        }
    }

    /// Takes the answer to the query at the cursor: `None` when the query
    /// failed, which ends the walk.
    pub fn step(&mut self, info: Option<RegionInfo>)
        requires
            old(self).wf(),
            !old(self).done,
        ensures
            final(self).wf(),
            info is None ==> final(self).done && final(self).pages@ == old(self).pages@
                && final(self).steps == old(self).steps,
            info matches Some(r) ==> final(self).pages@ == old(self).pages@ + region_page(r)
                && final(self).steps == old(self).steps + 1 && final(self).done == stops_after(
                old(self).cursor as int,
                old(self).steps as int,
                r,
            ) && (!final(self).done ==> final(self).cursor == r.base + r.size),
    {
        match info {
            None => {
                self.done = true;
            },
            Some(r) => {
                let ghost before = self.pages@;
                if r.committed && r.writable && r.size <= usize::MAX - r.base {
                    self.pages.push(VirtualPage { start: r.base, size: r.size });
                }
                assert(self.pages@ =~= before + region_page(r));
                assert forall|i: int| 0 <= i < self.pages@.len() implies #[trigger] self.pages@[i].start
                    + self.pages@[i].size <= usize::MAX by {
                    if i < before.len() {
                        assert(self.pages@[i] == before[i]);
                    }
                }
                self.steps = self.steps + 1;
                if r.size > usize::MAX - r.base {
                    self.done = true;
                } else {
                    let next = r.base + r.size;
                    if next <= self.cursor || next as u64 > USER_SPACE_END || self.steps >= MAX_REGIONS {
                        self.done = true;
                    } else {
                        self.cursor = next;
                    }
                }
            },
        }
    }
}

/// Size in bytes of the first buffer for process ids.
pub const FIRST_PID_BUFFER_BYTES: u32 = 1024;

/// Calls of the process enumerator before giving up.
pub const PID_ATTEMPTS: usize = 2;

/// What to do after a call of the process enumerator.
#[derive(Clone, Copy, PartialEq, Eq, Structural, Debug)]
pub enum EnumAction {
    /// Call again with a buffer of this many bytes.
    Retry(u32),
    /// The first this-many ids of the buffer are the answer.
    Done(usize),
    Fail,
}

/// Decides after attempt number `attempt` (from 0), which passed a buffer of
/// `buffer_bytes` bytes and got `used_bytes` back. A full buffer may have
/// been too small: retry with 128 more bytes while attempts remain.
pub fn enum_step(attempt: usize, buffer_bytes: u32, used_bytes: u32, success: bool) -> (r:
    EnumAction)
    ensures
        used_bytes == buffer_bytes ==> r == (if attempt + 1 < PID_ATTEMPTS && used_bytes + 128
            <= u32::MAX {
            EnumAction::Retry((used_bytes + 128) as u32)
        } else {
            EnumAction::Fail
        }),
        used_bytes != buffer_bytes ==> r == (if success {
            EnumAction::Done((used_bytes / 4) as usize)
        } else {
            EnumAction::Fail
        }),
{
    if used_bytes == buffer_bytes {
        if attempt < PID_ATTEMPTS - 1 && used_bytes <= u32::MAX - 128 {
            EnumAction::Retry(used_bytes + 128)
        } else {
            EnumAction::Fail
        }
    } else if success {
        EnumAction::Done((used_bytes / 4) as usize)
    } else {
        EnumAction::Fail
    }
}

/// A memory transfer counts only when the call succeeded and moved every
/// byte: partial reads and writes are errors.
pub fn transfer_complete(success: bool, moved: usize, wanted: usize) -> (r: bool)
    ensures
        r == (success && moved == wanted),
{
    success && moved == wanted
}

/// Path separator in UTF-16.
pub const BACKSLASH: u16 = 0x5C;

/// End of the text in a zero-terminated buffer: the first zero, else the end.
pub open spec fn text_end(s: Seq<u16>, i: int) -> int
    decreases s.len() - i,
{
    if 0 <= i < s.len() && s[i] != 0 {
        text_end(s, i + 1)
    } else {
        i
    }
}

/// Start of the last path component of `s[..end]`.
pub open spec fn component_start(s: Seq<u16>, end: int) -> int
    decreases end,
{
    if end <= 0 {
        0
    } else if s[end - 1] == BACKSLASH {
        end
    } else {
        component_start(s, end - 1)
    }
}

/// The last path component of the zero-terminated path in `s`.
pub open spec fn file_name_of(s: Seq<u16>) -> Seq<u16> {
    let end = text_end(s, 0);
    s.subrange(component_start(s, end), end)
}

/// The last component of a zero-terminated UTF-16 path, such as the image
/// file name of a process.
pub fn file_name(path: &[u16]) -> (r: Vec<u16>)
    ensures
        r@ == file_name_of(path@),
{
    let n = path.len();
    let mut end: usize = 0;
    while end < n && path[end] != 0
        invariant
            end <= n == path@.len(),
            text_end(path@, 0) == text_end(path@, end as int),
        decreases n - end,
    {
        end = end + 1;
    }
    let mut start: usize = end;
    while start > 0 && path[start - 1] != BACKSLASH
        invariant
            start <= end <= n == path@.len(),
            component_start(path@, end as int) == component_start(path@, start as int),
        decreases start,
    {
        start = start - 1;
    }
    let mut r: Vec<u16> = Vec::new();
    let mut i: usize = start;
    while i < end
        invariant
            start <= i <= end <= n == path@.len(),
            r@ == path@.subrange(start as int, i as int),
        decreases end - i,
    {
        r.push(path[i]);
        i = i + 1;
        assert(r@ =~= path@.subrange(start as int, i as int));
    }
    r
}

} // verus!
