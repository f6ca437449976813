//! Images of plots: which one is asked for, the part of a screenshot that shows
//! it, and its file name.

use crate::text::{chars_of, same_text};
use vstd::prelude::*;
use vstd::string::StringExecFns;

verus! {

/// `v` moved into `low..=high`.
pub open spec fn clamped(v: int, low: int, high: int) -> int {
    if v < low {
        low
    } else if v > high {
        high
    } else {
        v
    }
}

fn clamp(v: i64, low: usize, high: usize) -> (r: usize)
    requires
        low <= high <= i64::MAX,
    ensures
        r == clamped(v as int, low as int, high as int),
        low <= r <= high,
{
    if v < low as i64 {
        low
    } else if v > high as i64 {
        high
    } else {
        v as usize
    }
}

/// The part of an image that a crop keeps: left and top edge, width and
/// height.
#[derive(Debug, Clone, Copy, PartialEq, Eq, Structural)]
pub struct CropBox {
    pub x: usize,
    pub y: usize,
    pub width: usize,
    pub height: usize,
}

/// The part of an image of the given size that lies between two corners, in
/// pixels. Corners outside the image are moved to its edge.
pub fn crop_box(img_w: usize, img_h: usize, min_x: i64, min_y: i64, max_x: i64, max_y: i64) -> (r:
    CropBox)
    requires
        img_w <= i64::MAX,
        img_h <= i64::MAX,
    ensures
        r.x == clamped(min_x as int, 0, img_w as int),
        r.y == clamped(min_y as int, 0, img_h as int),
        r.x + r.width == clamped(max_x as int, r.x as int, img_w as int),
        r.y + r.height == clamped(max_y as int, r.y as int, img_h as int),
        r.x + r.width <= img_w,
        r.y + r.height <= img_h,
{
    let x0: usize = clamp(min_x, 0, img_w);
    let y0: usize = clamp(min_y, 0, img_h);
    let x1: usize = clamp(max_x, x0, img_w);
    let y1: usize = clamp(max_y, y0, img_h);
    CropBox { x: x0, y: y0, width: x1 - x0, height: y1 - y0 }
}

/// The pixels of the first `rows` rows of a crop, row by row.
pub open spec fn cropped<T>(pixels: Seq<T>, img_w: int, part: CropBox, rows: nat) -> Seq<T>
    decreases rows,
{
    if rows == 0 {
        Seq::empty()
    } else {
        let start = (part.y + rows - 1) * img_w + part.x;
        cropped(pixels, img_w, part, (rows - 1) as nat) + pixels.subrange(start, start + part.width)
    }
}

/// The pixels of a crop, row by row.
pub fn crop<T: Copy>(pixels: &[T], img_w: usize, img_h: usize, part: CropBox) -> (r: Vec<T>)
    requires
        pixels@.len() == img_w * img_h,
        part.x + part.width <= img_w,
        part.y + part.height <= img_h,
    ensures
        r@ == cropped(pixels@, img_w as int, part, part.height as nat),
        r@.len() == part.width * part.height,
{
    let mut out: Vec<T> = Vec::new();
    assert(part.width * 0 == 0) by (nonlinear_arith);
    for row in 0..part.height
        invariant
            pixels@.len() == img_w * img_h,
            part.x + part.width <= img_w,
            part.y + part.height <= img_h,
            out@ == cropped(pixels@, img_w as int, part, row as nat),
            out@.len() == part.width * row,
    {
        proof {
            assert((part.y + row) * img_w + img_w <= img_w * img_h) by (nonlinear_arith)
                requires
                    part.y + row + 1 <= img_h,
            ;
            assert((part.y + row) * img_w >= 0) by (nonlinear_arith);
            assert(part.width * (row + 1) == part.width * row + part.width) by (nonlinear_arith);
            assert(pixels@.len() == pixels.len());
        }
        let start: usize = (part.y + row) * img_w + part.x;
        let ghost before = out@;
        let mut k: usize = 0;
        assert(before + pixels@.subrange(start as int, start as int) =~= before);
        while k < part.width
            invariant
                k <= part.width,
                start + part.width <= pixels.len(),
                out@ == before + pixels@.subrange(start as int, start + k),
            decreases part.width - k,
        {
            out.push(pixels[start + k]);
            assert(before + pixels@.subrange(start as int, start + k + 1) =~= (before
                + pixels@.subrange(start as int, start + k)).push(pixels@[start + k]));
            k = k + 1;
        }
    }
    out
}

/// The character cannot stand in a file name.
pub open spec fn forbidden(c: char) -> bool {
    c == '<' || c == '>' || c == ':' || c == '"' || c == '/' || c == '\\' || c == '|' || c == '?'
        || c == '*'
}

/// The name with an underscore in place of every forbidden character.
pub open spec fn file_name(name: Seq<char>) -> Seq<char> {
    name.map_values(|c: char| if forbidden(c) { '_' } else { c })
}

/// The name with an underscore in place of every forbidden character.
pub fn sanitize_filename(name: &str) -> (r: String)
    ensures
        r@ == file_name(name@),
{
    let chars = chars_of(name);
    let mut out = String::new();
    for i in 0..chars.len()
        invariant
            chars@ == name@,
            out@ == file_name(name@).take(i as int),
    {
        let c = chars[i];
        let bad = c == '<' || c == '>' || c == ':' || c == '"' || c == '/' || c == '\\' || c == '|'
            || c == '?' || c == '*';
        out.push(if bad { '_' } else { c });
        assert(file_name(name@).take(i + 1) =~= file_name(name@).take(i as int).push(
            file_name(name@)[i as int],
        ));
    }
    assert(file_name(name@).take(name@.len() as int) =~= file_name(name@));
    out
}

/// A file name keeps its length, holds no forbidden character, and stays as it
/// is when it is made one again.
pub proof fn file_name_is_clean(name: Seq<char>)
    ensures
        file_name(name).len() == name.len(),
        forall|i: int| 0 <= i < name.len() ==> !forbidden(#[trigger] file_name(name)[i]),
        file_name(file_name(name)) == file_name(name),
{
    assert(file_name(file_name(name)) =~= file_name(name));
}

/// What to do with the image of a plot.
#[derive(Debug, Clone, Copy, PartialEq, Eq, Structural)]
pub enum ExportAction {
    Save,
    Copy,
    OpenWindow,
}

/// An image that was asked for. `R` is how the caller names a part of the
/// screen.
#[derive(Debug, Clone)]
pub struct PendingExport<R> {
    pub rect: R,
    pub action: ExportAction,
    pub title: String,
}

/// The images that are asked for, the plots that are to be zoomed to their
/// data, and the number of the last window that was opened.
#[derive(Debug, Clone)]
pub struct PlotExportQueue<R> {
    pub pending: Option<PendingExport<R>>,
    pub zoom_to_fit: Vec<String>,
    pub next_window_id: u64,
}

/// Text number `i` of a list is `id`.
pub open spec fn text_at(list: Seq<String>, i: int, id: Seq<char>) -> bool {
    list[i]@ == id
}

/// The list holds the text.
pub open spec fn holds(list: Seq<String>, id: Seq<char>) -> bool {
    exists|i: int| 0 <= i < list.len() && #[trigger] text_at(list, i, id)
}

impl<R> PlotExportQueue<R> {
    /// The plot is to be zoomed to its data.
    pub open spec fn zooms(self, id: Seq<char>) -> bool {
        holds(self.zoom_to_fit@, id)
    }

    /// Nothing is asked for.
    pub fn new() -> (r: PlotExportQueue<R>)
        ensures
            r.pending is None,
            forall|id: Seq<char>| !#[trigger] r.zooms(id),
            r.next_window_id == 0,
    {
        PlotExportQueue { pending: None, zoom_to_fit: Vec::new(), next_window_id: 0 }
    }

    /// Asks for the image of a plot, in place of one asked for before.
    pub fn request(&mut self, rect: R, action: ExportAction, title: &str)
        ensures
            final(self).pending matches Some(p) && p.rect == rect && p.action == action && p.title@
                == title@,
            final(self).zoom_to_fit == old(self).zoom_to_fit,
            final(self).next_window_id == old(self).next_window_id,
    {
        self.pending = Some(PendingExport { rect, action, title: String::from_str(title) });
    }

    /// The image that was asked for, once there is a screenshot to take it
    /// from. Until then it stays asked for.
    pub fn take_ready(&mut self, has_screenshot: bool) -> (r: Option<PendingExport<R>>)
        ensures
            r == (if has_screenshot {
                old(self).pending
            } else {
                None
            }),
            final(self).pending == (if has_screenshot {
                None
            } else {
                old(self).pending
            }),
            final(self).zoom_to_fit == old(self).zoom_to_fit,
            final(self).next_window_id == old(self).next_window_id,
    {
        if !has_screenshot {
            return None;
        }
        let mut taken: Option<PendingExport<R>> = None;
        std::mem::swap(&mut taken, &mut self.pending);
        taken
    }

    /// Asks for a plot to be zoomed to its data.
    pub fn request_zoom(&mut self, id: &str)
        ensures
            forall|other: Seq<char>| #[trigger]
                final(self).zooms(other) == (other == id@ || old(self).zooms(other)),
            final(self).pending == old(self).pending,
            final(self).next_window_id == old(self).next_window_id,
    {
        let ghost before = self.zoom_to_fit@;
        self.zoom_to_fit.push(String::from_str(id));
        proof {
            let after = self.zoom_to_fit@;
            assert(text_at(after, before.len() as int, id@));
            assert forall|other: Seq<char>| #[trigger] self.zooms(other) == (other == id@ || holds(
                before,
                other,
            )) by {
                if holds(before, other) {
                    let i = choose|i: int| 0 <= i < before.len() && text_at(before, i, other);
                    assert(text_at(after, i, other));
                }
                if holds(after, other) {
                    let i = choose|i: int| 0 <= i < after.len() && text_at(after, i, other);
                    if i < before.len() {
                        assert(text_at(before, i, other));
                    }
                }
            }
        }
    }

    /// Whether a plot is to be zoomed to its data; that is asked for once.
    pub fn take_zoom(&mut self, id: &str) -> (r: bool)
        ensures
            r == old(self).zooms(id@),
            forall|other: Seq<char>| #[trigger]
                final(self).zooms(other) == (other != id@ && old(self).zooms(other)),
            final(self).pending == old(self).pending,
            final(self).next_window_id == old(self).next_window_id,
    {
        let ghost before = self.zoom_to_fit@;
        let mut kept: Vec<String> = Vec::new();
        let mut found = false;
        for k in 0..self.zoom_to_fit.len()
            invariant
                self.zoom_to_fit@ == before,
                found == holds(before.take(k as int), id@),
                forall|other: Seq<char>| #[trigger]
                    holds(kept@, other) == (other != id@ && holds(before.take(k as int), other)),
        {
            let ghost rest = kept@;
            let ghost text = before[k as int]@;
            proof {
                one_more(before, k as int);
            }
            if same_text(self.zoom_to_fit[k].as_str(), id) {
                found = true;
            } else {
                let copy = String::from_str(self.zoom_to_fit[k].as_str());
                kept.push(copy);
                proof {
                    one_more(kept@, rest.len() as int);
                    assert(kept@.take(rest.len() as int) =~= rest);
                    assert(kept@.take(rest.len() as int + 1) =~= kept@);
                }
            }
        }
        assert(before.take(before.len() as int) =~= before);
        self.zoom_to_fit = kept;
        found
    }

    /// A number for the next window.
    pub fn open_window(&mut self) -> (r: u64)
        requires
            old(self).next_window_id < u64::MAX,
        ensures
            r == old(self).next_window_id + 1,
            final(self).next_window_id == r,
            final(self).pending == old(self).pending,
            final(self).zoom_to_fit == old(self).zoom_to_fit,
    {
        self.next_window_id = self.next_window_id + 1;
        self.next_window_id
    }
}

proof fn one_more(list: Seq<String>, k: int)
    requires
        0 <= k < list.len(),
    ensures
        forall|id: Seq<char>| #[trigger]
            holds(list.take(k + 1), id) == (holds(list.take(k), id) || list[k]@ == id),
{
    assert forall|id: Seq<char>| #[trigger] holds(list.take(k + 1), id) == (holds(list.take(k), id)
        || list[k]@ == id) by {
        let more = list.take(k + 1);
        let less = list.take(k);
        if holds(less, id) {
            let i = choose|i: int| 0 <= i < less.len() && text_at(less, i, id);
            assert(text_at(more, i, id));
        }
        if list[k]@ == id {
            assert(text_at(more, k, id));
        }
        if holds(more, id) {
            let i = choose|i: int| 0 <= i < more.len() && text_at(more, i, id);
            if i < k {
                assert(text_at(less, i, id));
            }
        }
    }
}

} // verus!
