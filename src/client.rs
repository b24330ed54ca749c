//! The data a chat client keeps: the messages it shows and the roster of
//! connected users.

use vstd::prelude::*;
use crate::text::byte_len;

verus! {

/// One shown message: its author and its text.
pub struct Message {
    pub author: String,
    pub content: String,
}

/// The width in columns of a message shown as `<author>: <content>`.
pub open spec fn shown_width(m: Message) -> int {
    byte_len(m.author@) + 2 + byte_len(m.content@)
}

/// The number of rows a message takes when wrapped at `width` columns.
pub open spec fn rows_of(m: Message, width: int) -> int {
    (shown_width(m) + width - 1) / width
}

/// Fits messages into `height` rows from the bottom up, over the last `k`
/// messages: returns the rows used, the number of messages that fit, and
/// whether one no longer fit. Messages without an author are not shown; a
/// blank row separates shown messages.
pub open spec fn fit_from_bottom(ms: Seq<Message>, height: int, width: int, k: nat) -> (int, int, bool)
    decreases k,
{
    if k == 0 || k > ms.len() {
        (0, 0, false)
    } else {
        let prev = fit_from_bottom(ms, height, width, (k - 1) as nat);
        let m = ms[ms.len() - k];
        if prev.2 || m.author@.len() == 0 {
            prev
        } else {
            let rows = if prev.1 > 0 {
                rows_of(m, width) + 1
            } else {
                rows_of(m, width)
            };
            if prev.0 + rows > height {
                (prev.0, prev.1, true)
            } else {
                (prev.0 + rows, prev.1 + 1, false)
            }
        }
    }
}

/// The scroll offset (messages skipped from the top) that shows as many of
/// the last messages as fit in the area.
pub open spec fn bottom_offset(ms: Seq<Message>, height: int, width: int) -> int {
    ms.len() - fit_from_bottom(ms, height, width, ms.len()).1
}

proof fn lemma_fit_bounds(ms: Seq<Message>, height: int, width: int, k: nat)
    requires
        k <= ms.len(),
        height >= 0,
        width > 0 || forall|i: int| 0 <= i < ms.len() ==> (#[trigger] ms[i]).author@.len() == 0,
    ensures
        0 <= fit_from_bottom(ms, height, width, k).0 <= height,
        0 <= fit_from_bottom(ms, height, width, k).1 <= k,
    decreases k,
{
    if k > 0 {
        lemma_fit_bounds(ms, height, width, (k - 1) as nat);
        let m = ms[ms.len() - k];
        if m.author@.len() > 0 {
            let x = shown_width(m) + width - 1;
            assert(x / width >= 0) by (nonlinear_arith)
                requires
                    width > 0,
                    x >= 0,
            ;
        }
    }
}

fn message_rows(m: &Message, width: u16) -> (r: u128)
    requires
        width > 0,
    ensures
        r == rows_of(*m, width as int),
        r <= 0x1_0000_0000_0000_0000_0000_0000,
{
    let a = m.author.as_str().len() as u128;
    let c = m.content.as_str().len() as u128;
    let w = width as u128;
    assert(a == byte_len(m.author@) && c == byte_len(m.content@));
    let x = a + 2 + c + w - 1;
    assert(x / w <= x) by (nonlinear_arith)
        requires
            w >= 1,
            x >= 0,
    ;
    x / w
}

/// The scroll offset that brings the last messages into a text area of
/// `available_height` rows and `available_width` columns.
pub fn calculate_scroll_to_bottom(messages: &[Message], available_height: u16, available_width: u16) -> (r: usize)
    requires
        available_width > 0 || forall|i: int|
            0 <= i < messages@.len() ==> (#[trigger] messages@[i]).author@.len() == 0,
    ensures
        r == bottom_offset(messages@, available_height as int, available_width as int),
{
    let n = messages.len();
    if n == 0 {
        return 0;
    }
    let ghost ms = messages@;
    let ghost h = available_height as int;
    let ghost w = available_width as int;
    let mut total: u128 = 0;
    let mut count: usize = 0;
    let mut k: usize = 0;
    let mut stopped = false;
    while k < n
        invariant
            n == ms.len(),
            ms == messages@,
            h == available_height as int,
            w == available_width as int,
            w > 0 || forall|i: int| 0 <= i < ms.len() ==> (#[trigger] ms[i]).author@.len() == 0,
            k <= n,
            fit_from_bottom(ms, h, w, k as nat) == (total as int, count as int, stopped),
        decreases n - k,
    {
        proof {
            lemma_fit_bounds(ms, h, w, k as nat);
        }
        let m = &messages[n - 1 - k];
        assert(*m == ms[ms.len() - (k + 1)]);
        if !stopped && !m.author.as_str().is_empty() {
            let rows = message_rows(m, available_width);
            let spaced = if count > 0 {
                rows + 1
            } else {
                rows
            };
            if total + spaced > available_height as u128 {
                stopped = true;
            } else {
                total = total + spaced;
                count = count + 1;
            }
        }
        k = k + 1;
    }
    proof {
        lemma_fit_bounds(ms, h, w, n as nat);
    }
    n - count
}

/// Whether the view at `scroll_offset` is close enough to the bottom that
/// new messages should scroll it: at most half the area's rows (at least
/// one) plus `threshold` messages lie from the offset to the end.
pub fn is_near_bottom(
    messages: &[Message],
    scroll_offset: usize,
    available_height: u16,
    available_width: u16,
    threshold: usize,
) -> (r: bool)
    ensures
        r == (messages@.len() == 0 || (if messages@.len() > scroll_offset {
            messages@.len() - scroll_offset
        } else {
            0
        }) <= (if available_height / 2 > 1 {
            available_height / 2
        } else {
            1
        }) + threshold),
{
    let n = messages.len();
    if n == 0 {
        return true;
    }
    let hidden_below: usize = if n > scroll_offset {
        n - scroll_offset
    } else {
        0
    };
    let half: usize = (available_height / 2) as usize;
    let max_visible: usize = if half > 1 {
        half
    } else {
        1
    };
    hidden_below <= max_visible || hidden_below - max_visible <= threshold
}

/// The list of connected users that a client shows beside the messages.
pub struct ConnectedUsersWidget {
    pub users: Vec<String>,
}

impl ConnectedUsersWidget {
    pub fn new() -> (r: ConnectedUsersWidget)
        ensures
            r.users@.len() == 0,
    {
        ConnectedUsersWidget { users: Vec::new() }
    }

    /// Replaces the shown roster with `users`, as received.
    pub fn set_users(&mut self, users: Vec<String>)
        ensures
            final(self).users@ == users@,
    {
        self.users = users;
    }
}

} // verus!
