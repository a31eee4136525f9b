//! The two window commands, as functions from desktop state to report
//! lines: listing every non-empty window title, and resizing the window
//! with a given title. The lines come back to the caller in print order;
//! printing itself is left to the binary around the library.

use vstd::prelude::*;
use vstd::string::StrSliceExecFns;
use vstd::string::StringExecFns;
use crate::decimal::dec_str_i32;
use crate::decimal::fmt_i32;
use crate::desktop::Desktop;
use crate::desktop::Window;
use crate::desktop::first_where;
use crate::desktop::handle_match;
use crate::desktop::lemma_first_where_some;
use crate::desktop::title_match;
use crate::desktop::title_read_of;
use crate::desktop::truncated_title;
use crate::wide::WideDecodeError;
use crate::wide::decode_wide;
use crate::wide::utf16_to_utf8;
use crate::wide::valid_wide;
use crate::wide::wide_of;

verus! {

/// What the listing prints: each window's title read (truncated and
/// decoded), in enumeration order, keeping only the non-empty ones.
pub open spec fn spec_listing(ws: Seq<Window>) -> Seq<Seq<char>>
    decreases ws.len(),
{
    if ws.len() == 0 {
        Seq::empty()
    } else {
        let t = decode_wide(title_read_of(ws[0].title@));
        let rest = spec_listing(ws.drop_first());
        if t.len() > 0 {
            seq![t] + rest
        } else {
            rest
        }
    }
}

/// One more window at the end extends the listing by its title, when that
/// title is non-empty.
proof fn lemma_spec_listing_push(ws: Seq<Window>, w: Window)
    ensures
        spec_listing(ws.push(w)) == spec_listing(ws) + (if decode_wide(
            title_read_of(w.title@),
        ).len() > 0 {
            seq![decode_wide(title_read_of(w.title@))]
        } else {
            Seq::<Seq<char>>::empty()
        }),
    decreases ws.len(),
{
    let tail = (if decode_wide(title_read_of(w.title@)).len() > 0 {
        seq![decode_wide(title_read_of(w.title@))]
    } else {
        Seq::<Seq<char>>::empty()
    });
    if ws.len() == 0 {
        let t = ws.push(w);
        assert(t[0] == w);
        assert(t.drop_first() =~= Seq::<Window>::empty());
        assert(spec_listing(t.drop_first()) == Seq::<Seq<char>>::empty());
        assert(spec_listing(ws) == Seq::<Seq<char>>::empty());
        assert(spec_listing(t) =~= spec_listing(ws) + tail);
    } else {
        lemma_spec_listing_push(ws.drop_first(), w);
        assert(ws.push(w).drop_first() =~= ws.drop_first().push(w));
        assert(ws.push(w)[0] == ws[0]);
        assert(spec_listing(ws.push(w)) =~= spec_listing(ws) + tail);
    }
}

/// Lists the titles worth printing: reads each window's title in
/// enumeration order and keeps the non-empty ones, one line per window. A
/// malformed title is fatal for the whole listing, so that no title is
/// silently dropped or substituted.
pub fn show_windows_list(d: &Desktop) -> (r: Result<Vec<String>, WideDecodeError>)
    ensures
        r is Ok <==> (forall|j: int|
            0 <= j < d.windows@.len() ==> valid_wide(
                title_read_of((#[trigger] d.windows@[j]).title@),
            )),
        r is Ok ==> r.unwrap().deep_view() == spec_listing(d.windows@),
{
    let n: usize = d.windows.len();
    let mut out: Vec<String> = Vec::new();
    let mut i: usize = 0;
    while i < n
        invariant
            i <= n,
            n == d.windows@.len(),
            forall|j: int|
                0 <= j < i ==> valid_wide(title_read_of((#[trigger] d.windows@[j]).title@)),
            out.deep_view() == spec_listing(d.windows@.take(i as int)),
        decreases n - i,
    {
        let t = truncated_title(&d.windows[i].title);
        match utf16_to_utf8(&t) {
            Ok(s) => {
                let ghost out0 = out.deep_view();
                let nonempty: bool = s.as_str().unicode_len() > 0;
                if nonempty {
                    out.push(s);
                }
                proof {
                    assert(d.windows@.take(i + 1) =~= d.windows@.take(i as int).push(
                        d.windows@[i as int],
                    ));
                    lemma_spec_listing_push(d.windows@.take(i as int), d.windows@[i as int]);
                    assert(out.deep_view() =~= spec_listing(d.windows@.take(i + 1)));
                }
            },
            Err(e) => {
                return Err(e);
            },
        }
        i = i + 1;
    }
    proof {
        assert(d.windows@.take(n as int) =~= d.windows@);
    }
    Ok(out)
}

/// The line reported when no window carries the requested title.
pub fn not_found_message() -> (r: &'static str)
    ensures
        r@ == "Not found window."@,
{
    "Not found window."
}

/// The three lines a resize reports before it acts: the requested title,
/// width and height, in print order.
pub fn resize_report_lines(window_title: &str, width: i32, height: i32) -> (r: Vec<String>)
    ensures
        r@.len() == 3,
        r@[0]@ == "window title: "@ + window_title@,
        r@[1]@ == "width: "@ + dec_str_i32(width as int),
        r@[2]@ == "height: "@ + dec_str_i32(height as int),
{
    let mut lines: Vec<String> = Vec::new();
    let mut l0: String = "window title: ".to_owned();
    l0.append(window_title);
    lines.push(l0);
    let mut l1: String = "width: ".to_owned();
    let wtext = fmt_i32(width);
    l1.append(wtext.as_str());
    lines.push(l1);
    let mut l2: String = "height: ".to_owned();
    let htext = fmt_i32(height);
    l2.append(htext.as_str());
    lines.push(l2);
    lines
}

/// Performs the resize command: reports the requested title, width and
/// height, then resizes the first window whose title matches exactly, or
/// reports `Not found window.` when none does. Only that window's size
/// changes — its position, and every other window, stay as they were — and
/// with no match the desktop is untouched. The report lines come back in
/// print order.
pub fn resize_window(d: &mut Desktop, window_title: &str, width: i32, height: i32) -> (r: Vec<
    String,
>)
    ensures
        ({
            let ws0 = old(d).windows@;
            let i = first_where(ws0, title_match(wide_of(window_title@)));
            &&& r@.len() == (if i < 0 {
                4int
            } else {
                3int
            })
            &&& r@[0]@ == "window title: "@ + window_title@
            &&& r@[1]@ == "width: "@ + dec_str_i32(width as int)
            &&& r@[2]@ == "height: "@ + dec_str_i32(height as int)
            &&& (i < 0 ==> r@[3]@ == "Not found window."@)
            &&& (i < 0 ==> final(d).windows@ == ws0)
            &&& (i >= 0 ==> ({
                let h = ws0[i].handle;
                let j = first_where(ws0, handle_match(h));
                &&& 0 <= j < ws0.len()
                &&& final(d).windows@.len() == ws0.len()
                &&& final(d).windows@[j].handle == ws0[j].handle
                &&& final(d).windows@[j].title@ == ws0[j].title@
                &&& final(d).windows@[j].x == ws0[j].x
                &&& final(d).windows@[j].y == ws0[j].y
                &&& final(d).windows@[j].width == width
                &&& final(d).windows@[j].height == height
                &&& (forall|k: int|
                    0 <= k < ws0.len() && k != j ==> final(d).windows@[k] == ws0[k])
            }))
        }),
{
    let mut lines: Vec<String> = resize_report_lines(window_title, width, height);
    match d.find_window_from_title(window_title) {
        Some(h) => {
            proof {
                let ws0 = d.windows@;
                let i: int = first_where(ws0, title_match(wide_of(window_title@)));
                lemma_first_where_some(ws0, handle_match(h), i);
            }
            d.set_window_size(h, width, height);
        },
        None => {
            lines.push(not_found_message().to_owned());
        },
    }
    lines
}

} // verus!
