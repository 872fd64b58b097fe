//! The hint bar's text. The popup gives two interior rows: row 0 is the key
//! legend, row 1 is transient feedback. Both rows are cut to the popup width
//! before drawing, since a row that wrapped would push the other one off the
//! two lines there are. Drawing them is the terminal's business, not this
//! module's.
use crate::text::{owned, push_char};
use vstd::prelude::*;

verus! {

/// The character that stands in for whatever a clipped row lost.
pub const ELLIPSIS: char = '\u{2026}';

/// `text` cut to at most `width` columns, ending in one `…` when anything
/// was dropped.
pub open spec fn spec_clip(text: Seq<char>, width: nat) -> Seq<char> {
    if text.len() <= width {
        text
    } else if width == 0 {
        Seq::empty()
    } else {
        text.take(width - 1).push(ELLIPSIS)
    }
}

/// `text` unchanged when the width is unknown, clipped to it otherwise.
pub open spec fn spec_fit(text: Seq<char>, width: Option<usize>) -> Seq<char> {
    match width {
        Some(w) => spec_clip(text, w as nat),
        None => text,
    }
}

/// `text` unchanged when it fits, or cut to `width` columns ending in "…".
/// `None` means the width is unknown, so the text passes through.
pub fn fit(text: String, width: Option<usize>) -> (r: String)
    ensures
        r@ == spec_fit(text@, width),
{
    match width {
        Some(w) => clip(text.as_str(), w),
        None => text,
    }
}

/// Cut `text` to at most `width` columns. Anything dropped is replaced by a
/// single "…", which counts toward the width.
pub fn clip(text: &str, width: usize) -> (r: String)
    ensures
        r@ == spec_clip(text@, width as nat),
        r@.len() <= width,
{
    let n = columns(text);
    if n <= width {
        return owned(text);
    }
    if width == 0 {
        return String::new();
    }
    let keep = width - 1;
    let mut out = owned(text.substring_char(0, keep));
    push_char(&mut out, ELLIPSIS);
    proof {
        assert(text@.subrange(0, keep as int) =~= text@.take(keep as int));
    }
    out
}

/// Display width. Everything the bar draws is ASCII, the middle-dot separator
/// or the ellipsis, all one column each, so a char count is the column count.
/// Byte length is not: the separator alone is two bytes.
pub fn columns(text: &str) -> (r: usize)
    ensures
        r == text@.len(),
{
    text.unicode_len()
}

/// The columns left of `width` once `used` are taken; unknown stays unknown.
pub open spec fn spec_left(width: Option<usize>, used: nat) -> Option<usize> {
    match width {
        Some(w) => Some(if w >= used {
            (w - used) as usize
        } else {
            0usize
        }),
        None => None,
    }
}

/// What the bar shows at `width`.
pub struct Rows {
    /// Row 0: the mode's label, then the legend in whatever the label leaves
    /// over; `None` when the config hid the legend.
    pub title: Option<(String, String)>,
    /// Row 1: the feedback line.
    pub feedback: String,
}

/// The bar for a mode labelled `label`, with legend `hint` and `feedback`
/// on the second row, cut to `width`. Neither row is wider than the bar, so a
/// long legend never wraps into the feedback row.
pub fn rows(label: &str, hint: Option<&str>, feedback: &str, width: Option<usize>) -> (r: Rows)
    ensures
        match hint {
            Some(h) => r.title matches Some((l, t)) && l@ == spec_fit(" "@ + label@ + " "@, width) && t@
                == spec_fit(" "@ + h@, spec_left(width, l@.len())),
            None => r.title is None,
        },
        r.feedback@ == spec_fit("  "@ + feedback@, width),
        width matches Some(w) ==> r.feedback@.len() <= w && (r.title matches Some((l, t)) ==> l@.len()
            + t@.len() <= w),
{
    let title = match hint {
        Some(h) => {
            let mut l = owned(" ");
            l.append(label);
            l.append(" ");
            let l = fit(l, width);
            let used = columns(l.as_str());
            let rest = match width {
                Some(w) => Some(w.saturating_sub(used)),
                None => None,
            };
            let mut t = owned(" ");
            t.append(h);
            Some((l, fit(t, rest)))
        },
        None => None,
    };
    let mut f = owned("  ");
    f.append(feedback);
    Rows { title, feedback: fit(f, width) }
}

/// The feedback row while a prompt is open: `label`, then what was typed.
pub fn prompt_row(label: &str, typed: &str, width: Option<usize>) -> (r: String)
    ensures
        r@ == spec_fit("  "@ + label@ + typed@, width),
{
    let mut p = owned("  ");
    p.append(label);
    p.append(typed);
    fit(p, width)
}

} // verus!
