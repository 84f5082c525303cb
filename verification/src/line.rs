//! The text layout of a session row: the title cut to the room left by the
//! age, the spaces that right-align the age, and the spaces that
//! right-align the repository on the branch line.
use vstd::prelude::*;
use crate::layout::{display_width, display_width_u16, sat_sub, str_width};
use crate::rows::{mark_glyph, mark_glyph_spec, SessionRowView};

verus! {

/// `n` spaces.
pub open spec fn spaces(n: nat) -> Seq<char> {
    Seq::new(n, |i: int| ' ')
}

/// The number of characters kept when `s` is cut to `max` columns:
/// characters are kept from the start while the kept text and an ellipsis
/// still fit.
pub open spec fn kept_chars(s: Seq<char>, max: nat, k: nat) -> nat
    decreases s.len() - k,
{
    if k >= s.len() || display_width(s.take(k + 1 as int)) + 1 > max {
        k
    } else {
        kept_chars(s, max, k + 1)
    }
}

/// `s` cut to `max` columns: unchanged when it fits, empty when no column
/// is left, otherwise its longest fitting start followed by an ellipsis.
pub open spec fn truncated(s: Seq<char>, max: nat) -> Seq<char> {
    if display_width(s) <= max {
        s
    } else if max == 0 {
        Seq::empty()
    } else {
        s.take(kept_chars(s, max, 0) as int) + seq!['\u{2026}']
    }
}

/// `s` cut to `max_width` columns, ending with an ellipsis when cut.
pub fn truncate_end(s: &str, max_width: usize) -> (r: String)
    ensures
        r@ == truncated(s@, max_width as nat),
{
    if str_width(s) <= max_width {
        return String::from_str(s);
    }
    if max_width == 0 {
        return String::new();
    }
    let n = s.unicode_len();
    let mut k: usize = 0;
    let mut stop = false;
    while !stop && k < n
        invariant
            n == s@.len(),
            k <= n,
            kept_chars(s@, max_width as nat, k as nat) == kept_chars(s@, max_width as nat, 0),
            stop ==> kept_chars(s@, max_width as nat, k as nat) == k,
        decreases n - k, if stop { 0int } else { 1int },
    {
        let prefix = s.substring_char(0, k + 1);
        assert(prefix@ == s@.take(k + 1));
        if str_width(prefix) >= max_width {
            stop = true;
        } else {
            k = k + 1;
        }
    }
    let kept = s.substring_char(0, k);
    assert(kept@ == s@.take(k as int));
    let mut r = String::from_str(kept);
    proof { reveal_strlit("\u{2026}"); }
    r.append("\u{2026}");
    r
}

/// The number of spaces appended to `prefix` until it is `target` columns
/// wide, counting from `k` and never more than `target`.
pub open spec fn pad_count(prefix: Seq<char>, target: nat, k: nat) -> nat
    decreases target - k,
{
    if k >= target || display_width(prefix + spaces(k)) >= target {
        k
    } else {
        pad_count(prefix, target, k + 1)
    }
}

/// `min(w, u16::MAX)`.
pub open spec fn cap16(w: nat) -> int {
    if w > u16::MAX { u16::MAX as int } else { w as int }
}

/// `min(a + b, u16::MAX)`.
pub open spec fn sat_add16(a: int, b: int) -> int {
    if a + b > u16::MAX { u16::MAX as int } else { a + b }
}

/// Columns left for the title: the body less the age and three columns
/// for the leading space, the mark and the space after it.
pub open spec fn title_room(age: Seq<char>, body_width: u16) -> int {
    sat_sub(body_width as int, sat_add16(cap16(display_width(age)), 3))
}

/// The first line up to the age: a space, the mark, a space and the title.
pub open spec fn line_start(glyph: Seq<char>, title: Seq<char>) -> Seq<char> {
    seq![' '] + glyph + seq![' '] + title
}

/// How a session row is laid out in a body `body_width` columns wide.
#[derive(Debug)]
pub struct RowLineLayout {
    /// The title, cut to the room left by the age.
    pub title: String,
    /// Spaces between the title and the age, which ends the first line.
    pub title_pad: usize,
    /// Spaces between the branch and the repository on the second line.
    pub repo_pad: usize,
}

/// The layout of a session row: the title is cut to the room the age
/// leaves; spaces follow until the first line reaches the column where the
/// age starts; on the branch line, spaces push the repository to the right
/// edge (none when there is no repository).
pub fn row_line_layout(view: &SessionRowView, body_width: u16) -> (layout: RowLineLayout)
    ensures
        ({
            let room = title_room(view.age@, body_width);
            let title = truncated(view.title@, room as nat);
            let target = sat_sub(body_width as int, cap16(display_width(view.age@)));
            &&& layout.title@ == title
            &&& layout.title_pad == pad_count(line_start(mark_glyph_spec(view.mark).0, title), target as nat, 0)
            &&& layout.repo_pad == match view.repo {
                Some(repo) => sat_sub(body_width as int,
                    sat_add16(sat_add16(2, cap16(display_width(view.branch_text@))), cap16(display_width(repo@)))),
                None => 0,
            }
        }),
{
    let time_width = display_width_u16(view.age.as_str());
    let title_width = body_width.saturating_sub(time_width.saturating_add(3));
    let title = truncate_end(view.title.as_str(), title_width as usize);
    let (glyph, _) = mark_glyph(view.mark);
    proof { reveal_strlit(" "); }
    let mut line = String::from_str(" ");
    line.append(glyph);
    line.append(" ");
    line.append(title.as_str());
    let ghost start = line@;
    assert(start == line_start(mark_glyph_spec(view.mark).0, title@));
    let target = body_width.saturating_sub(time_width);
    let mut pad: usize = 0;
    let mut stop = false;
    while !stop && pad < target as usize
        invariant
            pad <= target,
            line@ == start + spaces(pad as nat),
            pad_count(start, target as nat, pad as nat) == pad_count(start, target as nat, 0),
            stop ==> pad_count(start, target as nat, pad as nat) == pad,
        decreases target - pad, if stop { 0int } else { 1int },
    {
        if str_width(line.as_str()) >= target as usize {
            stop = true;
        } else {
            proof { reveal_strlit(" "); }
            let ghost before = line@;
            line.append(" ");
            assert(spaces((pad + 1) as nat) =~= spaces(pad as nat) + seq![' ']);
            assert(line@ =~= before + seq![' ']);
            assert(start + spaces((pad + 1) as nat) =~= start + spaces(pad as nat) + seq![' ']);
            pad = pad + 1;
        }
    }
    let repo_pad = match &view.repo {
        Some(repo) => {
            let repo_width = display_width_u16(repo.as_str());
            let branch_width = display_width_u16(view.branch_text.as_str());
            body_width.saturating_sub(2u16.saturating_add(branch_width).saturating_add(repo_width)) as usize
        },
        None => 0,
    };
    RowLineLayout { title, title_pad: pad, repo_pad }
}

} // verus!
