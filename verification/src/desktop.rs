//! A value-level model of the host desktop: the top-level windows in the
//! order the host window manager enumerates them, each with its handle, its
//! title as wide code units, and its screen geometry.
//!
//! The window operations — enumeration, title reads, exact-title lookup and
//! resizing — are stated and verified over this model. A live host binding
//! performs the same requests against real window-manager state; the model is
//! also what unit tests run against, since no test has a desktop of its own.

use vstd::prelude::*;
use crate::wide::decode_wide;
use crate::wide::utf16_to_utf8;
use crate::wide::encode_wide;
use crate::wide::lemma_decode_wide_len;
use crate::wide::valid_wide;
use crate::wide::wide_of;
use crate::wide::WideDecodeError;

verus! {

/// At most this many code units of a title are read; longer titles are
/// silently truncated, never an error.
pub const TITLE_CAPACITY: usize = 256;

/// Opaque identifier for one live top-level window, owned by the host
/// window manager. The library only reads and queries through it; it never
/// creates or destroys windows, and a stale handle makes every operation a
/// silent no-op, as on the host.
#[derive(Clone, Copy, PartialEq, Eq, Structural, Debug)]
pub struct WindowHandle {
    pub id: u64,
}

/// One top-level window as the host reports it.
pub struct Window {
    pub handle: WindowHandle,
    pub title: Vec<u16>,
    pub x: i32,
    pub y: i32,
    pub width: i32,
    pub height: i32,
}

/// The desktop: every top-level window, in host enumeration order.
pub struct Desktop {
    pub windows: Vec<Window>,
}

/// What one title read yields from the stored units: at most
/// `TITLE_CAPACITY` of them.
pub open spec fn title_read_of(t: Seq<u16>) -> Seq<u16> {
    if t.len() <= TITLE_CAPACITY {
        t
    } else {
        t.take(TITLE_CAPACITY as int)
    }
}

/// Copies at most `TITLE_CAPACITY` units of a stored title, the bounded
/// read the host performs.
pub(crate) fn truncated_title(title: &Vec<u16>) -> (t: Vec<u16>)
    ensures
        t@ == title_read_of(title@),
{
    let cap: usize = if title.len() < TITLE_CAPACITY {
        title.len()
    } else {
        TITLE_CAPACITY
    };
    let mut t: Vec<u16> = Vec::new();
    let mut k: usize = 0;
    while k < cap
        invariant
            k <= cap,
            cap <= title@.len(),
            t@ == title@.take(k as int),
        decreases cap - k,
    {
        t.push(title[k]);
        proof {
            assert(t@ =~= title@.take(k + 1));
        }
        k = k + 1;
    }
    proof {
        if title@.len() <= TITLE_CAPACITY {
            assert(title@.take(cap as int) =~= title@);
        }
    }
    t
}

/// Picks windows carrying the handle `h`.
pub open spec fn handle_match(h: WindowHandle) -> spec_fn(Window) -> bool {
    |w: Window| w.handle == h
}

/// Picks windows whose full title is exactly the unit sequence `t`.
pub open spec fn title_match(t: Seq<u16>) -> spec_fn(Window) -> bool {
    |w: Window| w.title@ == t
}

/// The position of the first window satisfying `p`, or -1 if none does.
pub open spec fn first_where(ws: Seq<Window>, p: spec_fn(Window) -> bool) -> int
    decreases ws.len(),
{
    if ws.len() == 0 {
        -1
    } else if p(ws[0]) {
        0
    } else {
        let r = first_where(ws.drop_first(), p);
        if r < 0 {
            -1
        } else {
            r + 1
        }
    }
}

/// When nothing satisfies `p`, there is no first position.
pub proof fn lemma_first_where_not_found(ws: Seq<Window>, p: spec_fn(Window) -> bool)
    requires
        forall|j: int| 0 <= j < ws.len() ==> !p(#[trigger] ws[j]),
    ensures
        first_where(ws, p) == -1,
    decreases ws.len(),
{
    if ws.len() == 0 {
    } else {
        assert(!p(ws[0]));
        assert forall|j: int| 0 <= j < ws.drop_first().len() implies !p(
            #[trigger] ws.drop_first()[j],
        ) by {
            assert(ws.drop_first()[j] == ws[j + 1]);
        }
        lemma_first_where_not_found(ws.drop_first(), p);
    }
}

/// A position that satisfies `p`, before which nothing does, is the first.
pub proof fn lemma_first_where_found(ws: Seq<Window>, p: spec_fn(Window) -> bool, i: int)
    requires
        0 <= i < ws.len(),
        p(ws[i]),
        forall|j: int| 0 <= j < i ==> !p(#[trigger] ws[j]),
    ensures
        first_where(ws, p) == i,
    decreases i,
{
    if i == 0 {
    } else {
        assert(!p(ws[0]));
        assert(ws.drop_first()[i - 1] == ws[i]);
        assert forall|j: int| 0 <= j < i - 1 implies !p(#[trigger] ws.drop_first()[j]) by {
            assert(ws.drop_first()[j] == ws[j + 1]);
        }
        lemma_first_where_found(ws.drop_first(), p, i - 1);
    }
}

/// Something at position `i` satisfies `p`, so a first position exists,
/// no later than `i`, and it satisfies `p` itself.
pub proof fn lemma_first_where_some(ws: Seq<Window>, p: spec_fn(Window) -> bool, i: int)
    requires
        0 <= i < ws.len(),
        p(ws[i]),
    ensures
        0 <= first_where(ws, p) <= i,
        p(ws[first_where(ws, p)]),
    decreases i,
{
    if p(ws[0]) {
    } else {
        assert(i > 0);
        assert(ws.drop_first()[i - 1] == ws[i]);
        lemma_first_where_some(ws.drop_first(), p, i - 1);
        let r: int = first_where(ws.drop_first(), p);
        assert(ws.drop_first()[r] == ws[r + 1]);
    }
}

/// Unit-for-unit equality of two wide strings.
fn units_eq(a: &Vec<u16>, b: &Vec<u16>) -> (r: bool)
    ensures
        r <==> a@ == b@,
{
    if a.len() != b.len() {
        return false;
    }
    let n: usize = a.len();
    let mut i: usize = 0;
    while i < n
        invariant
            i <= n,
            n == a@.len() == b@.len(),
            forall|j: int| 0 <= j < i ==> a@[j] == b@[j],
        decreases n - i,
    {
        if a[i] != b[i] {
            return false;
        }
        i = i + 1;
    }
    proof {
        assert(a@ =~= b@);
    }
    true
}

impl Desktop {
    /// The title units the host holds for `h`: those of the first window
    /// carrying that handle, or empty when no window does.
    pub open spec fn spec_title_units(self, h: WindowHandle) -> Seq<u16> {
        let i = first_where(self.windows@, handle_match(h));
        if i < 0 {
            Seq::empty()
        } else {
            self.windows@[i].title@
        }
    }

    /// What one title read returns: the stored units, truncated to
    /// `TITLE_CAPACITY`.
    pub open spec fn spec_title_read(self, h: WindowHandle) -> Seq<u16> {
        title_read_of(self.spec_title_units(h))
    }

    /// The position of the first window carrying `h`, if any.
    fn find_index_by_handle(&self, h: WindowHandle) -> (r: Option<usize>)
        ensures
            r is Some ==> 0 <= r.unwrap() < self.windows@.len() && first_where(
                self.windows@,
                handle_match(h),
            ) == r.unwrap(),
            r is None ==> first_where(self.windows@, handle_match(h)) == -1,
    {
        let n: usize = self.windows.len();
        let mut i: usize = 0;
        while i < n
            invariant
                i <= n,
                n == self.windows@.len(),
                forall|j: int| 0 <= j < i ==> (#[trigger] self.windows@[j]).handle != h,
            decreases n - i,
        {
            if self.windows[i].handle == h {
                proof {
                    lemma_first_where_found(self.windows@, handle_match(h), i as int);
                }
                return Some(i);
            }
            i = i + 1;
        }
        proof {
            lemma_first_where_not_found(self.windows@, handle_match(h));
        }
        None
    }

    /// Every window handle, in host enumeration order. Enumeration is a
    /// read-only query and always succeeds, possibly with an empty list.
    pub fn get_window_handle_list(&self) -> (r: Vec<WindowHandle>)
        ensures
            r@.len() == self.windows@.len(),
            forall|i: int| 0 <= i < r@.len() ==> r@[i] == (#[trigger] self.windows@[i]).handle,
    {
        let n: usize = self.windows.len();
        let mut out: Vec<WindowHandle> = Vec::new();
        let mut i: usize = 0;
        while i < n
            invariant
                i <= n,
                n == self.windows@.len(),
                out@.len() == i,
                forall|j: int| 0 <= j < i ==> out@[j] == (#[trigger] self.windows@[j]).handle,
            decreases n - i,
        {
            out.push(self.windows[i].handle);
            i = i + 1;
        }
        out
    }

    /// Reads the title of the window `h`: at most `TITLE_CAPACITY` units,
    /// converted to portable text. An absent window reads as empty text; a
    /// malformed unit sequence is an error, never a silent substitution.
    /// The text is never longer than `TITLE_CAPACITY` characters.
    pub fn get_window_title(&self, h: WindowHandle) -> (r: Result<String, WideDecodeError>)
        ensures
            r is Ok <==> valid_wide(self.spec_title_read(h)),
            r is Ok ==> r.unwrap()@ == decode_wide(self.spec_title_read(h)),
            r is Ok ==> r.unwrap()@.len() <= TITLE_CAPACITY,
    {
        let units: Vec<u16> = match self.find_index_by_handle(h) {
            Some(i) => {
                let t = truncated_title(&self.windows[i].title);
                proof {
                    assert(t@ == self.spec_title_read(h));
                }
                t
            },
            None => {
                let t: Vec<u16> = Vec::new();
                proof {
                    assert(t@ =~= self.spec_title_read(h));
                }
                t
            },
        };
        let r = utf16_to_utf8(&units);
        proof {
            lemma_decode_wide_len(units@);
        }
        r
    }

    /// Finds the single top-level window whose title equals `title` exactly,
    /// unit for unit in the wide encoding, first match winning. This is the
    /// direct host-lookup path: it does not reuse the enumerator, and on a
    /// live host the two paths may classify windows slightly differently.
    pub fn find_window_from_title(&self, title: &str) -> (r: Option<WindowHandle>)
        ensures
            ({
                let i = first_where(self.windows@, title_match(wide_of(title@)));
                &&& (r is Some <==> i >= 0)
                &&& (r is Some ==> 0 <= i < self.windows@.len() && r.unwrap()
                    == self.windows@[i].handle)
            }),
    {
        let w: Vec<u16> = encode_wide(title);
        let n: usize = self.windows.len();
        let mut i: usize = 0;
        while i < n
            invariant
                i <= n,
                n == self.windows@.len(),
                w@ == wide_of(title@),
                forall|j: int| 0 <= j < i ==> (#[trigger] self.windows@[j]).title@ != wide_of(
                    title@,
                ),
            decreases n - i,
        {
            if units_eq(&self.windows[i].title, &w) {
                proof {
                    lemma_first_where_found(self.windows@, title_match(wide_of(title@)), i as int);
                }
                return Some(self.windows[i].handle);
            }
            i = i + 1;
        }
        proof {
            lemma_first_where_not_found(self.windows@, title_match(wide_of(title@)));
        }
        None
    }

    /// Sets the size of the window `h` and nothing else: its position, its
    /// handle, its title and every other window stay exactly as they were.
    /// A handle no window carries is a silent no-op, as the host treats a
    /// stale handle; failure is not reported, by design.
    pub fn set_window_size(&mut self, h: WindowHandle, width: i32, height: i32)
        ensures
            ({
                let i = first_where(old(self).windows@, handle_match(h));
                &&& final(self).windows@.len() == old(self).windows@.len()
                &&& (i < 0 ==> final(self).windows@ == old(self).windows@)
                &&& (i >= 0 ==> {
                    &&& final(self).windows@[i].handle == old(self).windows@[i].handle
                    &&& final(self).windows@[i].title@ == old(self).windows@[i].title@
                    &&& final(self).windows@[i].x == old(self).windows@[i].x
                    &&& final(self).windows@[i].y == old(self).windows@[i].y
                    &&& final(self).windows@[i].width == width
                    &&& final(self).windows@[i].height == height
                    &&& forall|j: int|
                        0 <= j < old(self).windows@.len() && j != i ==> final(self).windows@[j]
                            == old(self).windows@[j]
                })
            }),
    {
        match self.find_index_by_handle(h) {
            Some(i) => {
                self.windows[i].width = width;
                self.windows[i].height = height;
            },
            None => {
            },
        }
    }
}

/// A well-formed title of at most `TITLE_CAPACITY` units always reads back
/// successfully, as text of at most `TITLE_CAPACITY` characters: together
/// with the contract of `get_window_title`, a title read raises an error
/// only on a malformed or over-long stored title.
pub proof fn lemma_get_title_ok(d: Desktop, h: WindowHandle)
    requires
        valid_wide(d.spec_title_units(h)),
        d.spec_title_units(h).len() <= TITLE_CAPACITY,
    ensures
        valid_wide(d.spec_title_read(h)),
        decode_wide(d.spec_title_read(h)).len() <= TITLE_CAPACITY,
{
    lemma_decode_wide_len(d.spec_title_read(h));
}

/// A title that no window carries is never found: with the contract of
/// `find_window_from_title`, the lookup then returns `None`.
pub proof fn lemma_find_by_title_none(d: Desktop, t: Seq<char>)
    requires
        forall|j: int|
            0 <= j < d.windows@.len() ==> (#[trigger] d.windows@[j]).title@ != wide_of(t),
    ensures
        first_where(d.windows@, title_match(wide_of(t))) == -1,
{
    lemma_first_where_not_found(d.windows@, title_match(wide_of(t)));
}

} // verus!
