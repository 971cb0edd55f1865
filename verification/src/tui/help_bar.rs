//! The help bar: the key hints of each view, laid out in lines without
//! breaking a hint across lines.
use vstd::prelude::*;
use crate::text::chars_of;
use crate::tui::app::HelpSet;

verus! {

/// ` | `, between two hints on a line.
pub open spec fn sep() -> Seq<char> {
    seq![' ', '|', ' ']
}

/// The views of the hints.
pub open spec fn item_views(items: Seq<&str>) -> Seq<Seq<char>> {
    items.map_values(|s: &str| s@)
}

/// The views of the spans of a line.
pub open spec fn span_views(spans: Seq<String>) -> Seq<Seq<char>> {
    spans.map_values(|s: String| s@)
}

/// The views of the lines.
pub open spec fn line_views(lines: Seq<Vec<String>>) -> Seq<Seq<Seq<char>>> {
    lines.map_values(|l: Vec<String>| span_views(l@))
}

/// The number of characters of a line's spans.
pub open spec fn text_len(spans: Seq<Seq<char>>) -> int
    decreases spans.len(),
{
    if spans.len() == 0 {
        0
    } else {
        text_len(spans.drop_last()) + spans.last().len()
    }
}

/// Laying out hints: the finished lines, the spans of the current line and
/// its length in characters.
pub struct Packing {
    pub lines: Seq<Seq<Seq<char>>>,
    pub cur: Seq<Seq<char>>,
    pub len: int,
}

/// Adds a hint: it starts the current line when that line is still empty
/// of text, follows a separator when it fits within `w`, and otherwise
/// starts a new line.
pub open spec fn pack_step(p: Packing, item: Seq<char>, w: int) -> Packing {
    if p.len == 0 {
        Packing { lines: p.lines, cur: p.cur.push(item), len: item.len() as int }
    } else if p.len + 3 + item.len() <= w {
        Packing { lines: p.lines, cur: p.cur.push(sep()).push(item), len: p.len + 3 + item.len() }
    } else {
        Packing { lines: p.lines.push(p.cur), cur: seq![item], len: item.len() as int }
    }
}

/// The layout state after the hints `items`.
pub open spec fn pack(items: Seq<Seq<char>>, w: int) -> Packing
    decreases items.len(),
{
    if items.len() == 0 {
        Packing { lines: Seq::empty(), cur: Seq::empty(), len: 0 }
    } else {
        pack_step(pack(items.drop_last(), w), items.last(), w)
    }
}

/// The width used: at least one column.
pub open spec fn bar_width(width: u16) -> int {
    if width >= 1 { width as int } else { 1 }
}

/// The lines of hints for a bar `width` columns wide, each a list of spans.
pub open spec fn layout_spec(items: Seq<Seq<char>>, width: u16) -> Seq<Seq<Seq<char>>> {
    let p = pack(items, bar_width(width));
    if p.cur.len() > 0 { p.lines.push(p.cur) } else { p.lines }
}

/// Lays out the hints `items` in lines at most `width` columns wide where
/// they fit; a hint is never split.
pub fn layout_lines(items: &[&str], width: u16) -> (r: Vec<Vec<String>>)
    ensures
        line_views(r@) == layout_spec(item_views(items@), width),
{
    let w: usize = if width >= 1 { width as usize } else { 1 };
    let ghost iv = item_views(items@);
    let mut lines: Vec<Vec<String>> = Vec::new();
    let mut cur: Vec<String> = Vec::new();
    let mut cur_len: usize = 0;
    let mut i: usize = 0;
    assert(iv.take(0) =~= Seq::<Seq<char>>::empty());
    assert(line_views(lines@) =~= Seq::<Seq<Seq<char>>>::empty());
    assert(span_views(cur@) =~= Seq::<Seq<char>>::empty());
    while i < items.len()
        invariant
            i <= items.len(),
            w == bar_width(width),
            iv == item_views(items@),
            pack(iv.take(i as int), w as int) == (Packing { lines: line_views(lines@), cur: span_views(cur@), len: cur_len as int }),
        decreases items.len() - i,
    {
        assert(iv.take(i + 1).drop_last() =~= iv.take(i as int));
        assert(iv.take(i + 1).last() == items@[i as int]@);
        let item = items[i];
        let item_len = chars_of(item).len();
        let ghost before_lines = lines@;
        let ghost before_cur = cur@;
        if cur_len == 0 {
            cur.push(item.to_string());
            cur_len = item_len;
            assert(span_views(cur@) =~= span_views(before_cur).push(item@));
        } else {
            let fits = match cur_len.checked_add(3) {
                Some(a) => match a.checked_add(item_len) {
                    Some(b) => b <= w,
                    None => false,
                },
                None => false,
            };
            if fits {
                cur.push(" | ".to_string());
                cur.push(item.to_string());
                cur_len = cur_len + 3 + item_len;
                proof {
                    reveal_strlit(" | ");
                }
                assert(" | "@ =~= sep());
                assert(span_views(cur@) =~= span_views(before_cur).push(sep()).push(item@));
            } else {
                lines.push(cur);
                cur = Vec::new();
                cur.push(item.to_string());
                cur_len = item_len;
                assert(line_views(lines@) =~= line_views(before_lines).push(span_views(before_cur)));
                assert(span_views(cur@) =~= seq![item@]);
            }
        }
        i += 1;
    }
    assert(iv.take(items.len() as int) =~= iv);
    if cur.len() > 0 {
        let ghost before_lines = lines@;
        lines.push(cur);
        assert(line_views(lines@) =~= line_views(before_lines).push(span_views(cur@)));
    }
    lines
}

// ---------------------------------------------------------------------------
// What the layout keeps
// ---------------------------------------------------------------------------

/// The hints of a line, read back: a span that follows text is preceded by
/// a separator, which is dropped.
pub open spec fn read_items(spans: Seq<Seq<char>>) -> Seq<Seq<char>>
    decreases spans.len(),
{
    if spans.len() == 0 {
        Seq::empty()
    } else if text_len(spans.drop_last()) == 0 {
        read_items(spans.drop_last()).push(spans.last())
    } else if spans.len() >= 2 {
        read_items(spans.drop_last().drop_last()).push(spans.last())
    } else {
        seq![spans.last()]
    }
}

/// The hints of all lines, in order.
pub open spec fn all_items(lines: Seq<Seq<Seq<char>>>) -> Seq<Seq<char>>
    decreases lines.len(),
{
    if lines.len() == 0 {
        Seq::empty()
    } else {
        all_items(lines.drop_last()) + read_items(lines.last())
    }
}

/// The length of the longest of `items`.
pub open spec fn longest(items: Seq<Seq<char>>) -> int
    decreases items.len(),
{
    if items.len() == 0 {
        0
    } else if items.last().len() > longest(items.drop_last()) {
        items.last().len() as int
    } else {
        longest(items.drop_last())
    }
}

/// A line fits: its text is within the width, or no longer than its
/// longest hint (which then stands alone but for empty hints).
pub open spec fn line_fits(line: Seq<Seq<char>>, w: int) -> bool {
    text_len(line) <= w || text_len(line) <= longest(read_items(line))
}

proof fn lemma_text_len_nonneg(s: Seq<Seq<char>>)
    ensures
        text_len(s) >= 0,
    decreases s.len(),
{
    if s.len() > 0 {
        lemma_text_len_nonneg(s.drop_last());
    }
}

proof fn lemma_text_len_push(s: Seq<Seq<char>>, x: Seq<char>)
    ensures
        text_len(s.push(x)) == text_len(s) + x.len(),
{
    assert(s.push(x).drop_last() =~= s);
}

proof fn lemma_all_items_push(lines: Seq<Seq<Seq<char>>>, l: Seq<Seq<char>>)
    ensures
        all_items(lines.push(l)) == all_items(lines) + read_items(l),
{
    assert(lines.push(l).drop_last() =~= lines);
}

proof fn lemma_longest_push(items: Seq<Seq<char>>, x: Seq<char>)
    ensures
        longest(items.push(x)) >= longest(items),
        longest(items.push(x)) >= x.len(),
{
    assert(items.push(x).drop_last() =~= items);
}

/// The invariant of packing: the hints read back are those added so far,
/// the current length is the current line's text length, and every
/// finished line fits; so does the current one.
proof fn lemma_pack_inv(items: Seq<Seq<char>>, w: int)
    requires
        w >= 1,
    ensures
        ({
            let p = pack(items, w);
            &&& all_items(p.lines) + read_items(p.cur) == items
            &&& p.len == text_len(p.cur)
            &&& forall|k: int| 0 <= k < p.lines.len() ==> line_fits(#[trigger] p.lines[k], w)
            &&& line_fits(p.cur, w)
        }),
    decreases items.len(),
{
    if items.len() == 0 {
        assert(all_items(Seq::<Seq<Seq<char>>>::empty()) + read_items(Seq::<Seq<char>>::empty()) =~= items);
    } else {
        let prev = items.drop_last();
        let item = items.last();
        lemma_pack_inv(prev, w);
        let p = pack(prev, w);
        assert(items =~= prev.push(item));
        if p.len == 0 {
            let c = p.cur.push(item);
            assert(c.drop_last() =~= p.cur);
            lemma_text_len_push(p.cur, item);
            assert(read_items(c) == read_items(p.cur).push(item));
            assert(all_items(p.lines) + read_items(c) =~= (all_items(p.lines) + read_items(p.cur)).push(item));
            lemma_longest_push(read_items(p.cur), item);
        } else if p.len + 3 + item.len() <= w {
            let c1 = p.cur.push(sep());
            let c = c1.push(item);
            assert(c.drop_last() =~= c1);
            assert(c1.drop_last() =~= p.cur);
            lemma_text_len_push(p.cur, sep());
            lemma_text_len_push(c1, item);
            lemma_text_len_nonneg(p.cur);
            assert(sep().len() == 3);
            assert(text_len(c1) > 0);
            assert(read_items(c) == read_items(p.cur).push(item));
            assert(all_items(p.lines) + read_items(c) =~= (all_items(p.lines) + read_items(p.cur)).push(item));
        } else {
            let ls = p.lines.push(p.cur);
            lemma_all_items_push(p.lines, p.cur);
            let c = seq![item];
            assert(c.drop_last() =~= Seq::<Seq<char>>::empty());
            lemma_text_len_push(Seq::<Seq<char>>::empty(), item);
            assert(read_items(Seq::<Seq<char>>::empty()) =~= Seq::<Seq<char>>::empty());
            assert(Seq::<Seq<char>>::empty().push(item) =~= seq![item]);
            assert(read_items(c) =~= seq![item]);
            assert(all_items(ls) + read_items(c) =~= (all_items(p.lines) + read_items(p.cur)).push(item));
            assert(longest(seq![item]) == item.len()) by {
                assert(seq![item].drop_last() =~= Seq::<Seq<char>>::empty());
                assert(seq![item].last() == item);
                assert(longest(Seq::<Seq<char>>::empty()) == 0);
            }
            assert forall|k: int| 0 <= k < ls.len() implies line_fits(#[trigger] ls[k], w) by {
                if k < p.lines.len() {
                    assert(ls[k] == p.lines[k]);
                }
            }
        }
    }
}

/// The layout keeps every hint, whole and in order: reading the hints back
/// from the lines gives `items`.
pub proof fn lemma_layout_keeps_items(items: Seq<Seq<char>>, width: u16)
    ensures
        all_items(layout_spec(items, width)) == items,
{
    let p = pack(items, bar_width(width));
    lemma_pack_inv(items, bar_width(width));
    if p.cur.len() > 0 {
        lemma_all_items_push(p.lines, p.cur);
    } else {
        assert(read_items(p.cur) =~= Seq::<Seq<char>>::empty());
        assert(all_items(p.lines) + read_items(p.cur) =~= all_items(p.lines));
    }
}

/// Every line of the layout fits in the bar, except one that a single hint
/// longer than the bar makes wider (and no wider than that hint).
pub proof fn lemma_layout_lines_fit(items: Seq<Seq<char>>, width: u16)
    ensures
        forall|k: int| 0 <= k < layout_spec(items, width).len() ==> line_fits(#[trigger] layout_spec(items, width)[k], bar_width(width)),
{
    let p = pack(items, bar_width(width));
    lemma_pack_inv(items, bar_width(width));
    let r = layout_spec(items, width);
    assert forall|k: int| 0 <= k < r.len() implies line_fits(#[trigger] r[k], bar_width(width)) by {
        if k < p.lines.len() {
            assert(r[k] == p.lines[k]);
        }
    }
}

// ---------------------------------------------------------------------------
// The hints of each view
// ---------------------------------------------------------------------------

/// The hints of a view.
pub open spec fn help_items_spec(set: HelpSet) -> Seq<Seq<char>> {
    match set {
        HelpSet::Tasks => seq![
            "Select: j/k"@, "Edit/Attach: ⏎"@, "New: n/N"@, "Start: s"@, "Stop: S"@, "Files: f"@,
            "Merge: m"@, "Complete: C"@, "Open: o"@, "Delete: X"@, "Quit: C-c"@,
        ],
        HelpSet::Files => seq![
            "Select: j/k/1-9"@, "Open: ⏎/o"@, "Open Dir: O"@, "Add: a"@, "Edit: e"@, "Delete: X"@,
            "Paste: p"@, "Close: Esc"@,
        ],
        HelpSet::FileInput => seq!["Type path"@, "Submit: ⏎"@, "Cancel: Esc"@],
        HelpSet::Input => seq!["Type slug"@, "Agent: C-a"@, "Submit: ⏎"@, "Cancel: Esc"@],
        HelpSet::Log => seq!["Scroll: j/k"@],
    }
}

/// The hints the help bar shows for a view.
pub fn help_items(set: HelpSet) -> (r: Vec<&'static str>)
    ensures
        item_views(r@) == help_items_spec(set),
{
    let v: Vec<&'static str> = match set {
        HelpSet::Tasks => vec![
            "Select: j/k", "Edit/Attach: ⏎", "New: n/N", "Start: s", "Stop: S", "Files: f",
            "Merge: m", "Complete: C", "Open: o", "Delete: X", "Quit: C-c",
        ],
        HelpSet::Files => vec![
            "Select: j/k/1-9", "Open: ⏎/o", "Open Dir: O", "Add: a", "Edit: e", "Delete: X",
            "Paste: p", "Close: Esc",
        ],
        HelpSet::FileInput => vec!["Type path", "Submit: ⏎", "Cancel: Esc"],
        HelpSet::Input => vec!["Type slug", "Agent: C-a", "Submit: ⏎", "Cancel: Esc"],
        HelpSet::Log => vec!["Scroll: j/k"],
    };
    assert(item_views(v@) =~= help_items_spec(set));
    v
}

} // verus!
