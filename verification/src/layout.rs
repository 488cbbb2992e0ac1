//! A document tree and its block layout, with an ASCII rendering.

use vstd::prelude::*;
use std::collections::HashMap;
use crate::text::{count_lines, line_count};

verus! {

/// A node of a document: a text, or an element with a tag, attributes and
/// children.
#[derive(Debug)]
pub enum DomNode {
    Text(String),
    Element { tag: String, attrs: HashMap<String, String>, children: Vec<DomNode> },
}

/// The mathematical value of a document node.
pub enum DomView {
    Text(Seq<char>),
    Element(Seq<char>, Map<String, String>, Seq<DomView>),
}

impl DomNode {
    /// The mathematical value of the node.
    pub open spec fn dom_view(&self) -> DomView
        decreases self,
    {
        match self {
            DomNode::Text(t) => DomView::Text(t@),
            DomNode::Element { tag, attrs, children } => {
                proof {
                    lemma_children_decrease(self);
                }
                DomView::Element(tag@, attrs@, Seq::new(
                    children@.len(),
                    |i: int| if 0 <= i < children@.len() { children@[i].dom_view() } else { DomView::Text(Seq::empty()) },
                ))
            },
        }
    }
}

pub proof fn lemma_children_decrease(node: &DomNode)
    requires
        node is Element,
    ensures
        forall|i: int| 0 <= i < node->children@.len() ==> decreases_to!(node => node->children@[i]),
{
    assert forall|i: int| 0 <= i < node->children@.len() implies decreases_to!(node => node->children@[i]) by {
        let children = node->children;
        assert(decreases_to!(node => children));
        assert(decreases_to!(children => children@));
        assert(decreases_to!(children@ => children@[i]));
    }
}

impl Clone for DomNode {
    fn clone(&self) -> (c: Self)
        ensures
            c.dom_view() == self.dom_view(),
        decreases self,
    {
        match self {
            DomNode::Text(t) => DomNode::Text(t.clone()),
            DomNode::Element { tag, attrs, children } => {
                let mut copies: Vec<DomNode> = Vec::new();
                let mut i: usize = 0;
                proof {
                    lemma_children_decrease(self);
                }
                while i < children.len()
                    invariant
                        self is Element,
                        self->children == *children,
                        forall|k: int| 0 <= k < children@.len() ==> decreases_to!(self => #[trigger] children@[k]),
                        i <= children@.len(),
                        copies@.len() == i,
                        forall|j: int| 0 <= j < i ==> #[trigger] copies@[j].dom_view() == children@[j].dom_view(),
                    decreases children@.len() - i,
                {
                    let c = children[i].clone();
                    copies.push(c);
                    i = i + 1;
                }
                let c = DomNode::Element { tag: tag.clone(), attrs: attrs.clone(), children: copies };
                assert(c.dom_view() == self.dom_view()) by {
                    let cv = c.dom_view()->Element_2;
                    let sv = self.dom_view()->Element_2;
                    assert forall|k: int| 0 <= k < cv.len() implies cv[k] == sv[k] by {
                        assert(copies@[k].dom_view() == children@[k].dom_view());
                    }
                    assert(cv =~= sv);
                }
                c
            }
        }
    }
}

/// A laid-out box: its position and size in character cells, and the node it
/// holds.
#[derive(Debug, Clone)]
pub struct LayoutBox {
    pub x: usize,
    pub y: usize,
    pub width: usize,
    pub height: usize,
    pub node: DomNode,
}

/// The mathematical value of a laid-out box.
pub struct BoxView {
    pub x: int,
    pub y: int,
    pub width: int,
    pub height: int,
    pub node: DomView,
}

impl LayoutBox {
    /// The mathematical value of the box.
    pub open spec fn box_view(&self) -> BoxView {
        BoxView {
            x: self.x as int,
            y: self.y as int,
            width: self.width as int,
            height: self.height as int,
            node: self.node.dom_view(),
        }
    }
}

/// The mathematical values of a sequence of boxes.
pub open spec fn boxes_view(boxes: Seq<LayoutBox>) -> Seq<BoxView> {
    Seq::new(boxes.len(), |i: int| boxes[i].box_view())
}

/// The number of rows a node occupies: a text as many as it has lines (at
/// least one), an element one for itself plus the rows of its children.
pub open spec fn node_height(n: DomView) -> nat
    decreases n,
{
    match n {
        DomView::Text(t) => if line_count(t) > 1 { line_count(t) } else { 1 },
        DomView::Element(_, _, cs) => 1 + children_rows(cs),
    }
}

/// The rows a sequence of sibling nodes advances by: each node's height plus
/// one separating row.
pub open spec fn children_rows(cs: Seq<DomView>) -> nat
    decreases cs,
{
    if cs.len() == 0 {
        0
    } else {
        children_rows(cs.drop_last()) + node_height(cs.last()) + 1
    }
}

/// The nesting depth of a node.
pub open spec fn node_depth(n: DomView) -> nat
    decreases n,
{
    match n {
        DomView::Text(_) => 0,
        DomView::Element(_, _, cs) => 1 + children_depth(cs),
    }
}

/// The largest depth among sibling nodes.
pub open spec fn children_depth(cs: Seq<DomView>) -> nat
    decreases cs,
{
    if cs.len() == 0 {
        0
    } else {
        let a = children_depth(cs.drop_last());
        let b = node_depth(cs.last());
        if a > b { a } else { b }
    }
}

/// `w - 2`, or zero.
pub open spec fn narrower(w: int) -> int {
    if w >= 2 { w - 2 } else { 0 }
}

/// The boxes of a node laid out at `(x, y)` with the given width, children
/// first (indented by two and one row down), the node's own box last.
pub open spec fn layout_of(n: DomView, x: int, y: int, width: int) -> Seq<BoxView>
    decreases n,
{
    match n {
        DomView::Text(_) => seq![BoxView { x, y, width, height: node_height(n) as int, node: n }],
        DomView::Element(_, _, cs) => children_layout(cs, x + 2, y + 1, narrower(width)).push(
            BoxView { x, y, width, height: node_height(n) as int, node: n },
        ),
    }
}

/// The boxes of sibling nodes laid out one below the other from row `y`.
pub open spec fn children_layout(cs: Seq<DomView>, x: int, y: int, width: int) -> Seq<BoxView>
    decreases cs,
{
    if cs.len() == 0 {
        Seq::empty()
    } else {
        children_layout(cs.drop_last(), x, y, width) + layout_of(
            cs.last(),
            x,
            y + children_rows(cs.drop_last()),
            width,
        )
    }
}

proof fn lemma_children_depth_bound(cs: Seq<DomView>, i: int)
    requires
        0 <= i < cs.len(),
    ensures
        node_depth(cs[i]) <= children_depth(cs),
    decreases cs.len(),
{
    if i < cs.len() - 1 {
        lemma_children_depth_bound(cs.drop_last(), i);
    }
}

fn walk_layout(node: &DomNode, x: usize, y: usize, width: usize, out: &mut Vec<LayoutBox>) -> (next: usize)
    requires
        y + node_height(node.dom_view()) + 1 <= usize::MAX,
        x + 2 * node_depth(node.dom_view()) <= usize::MAX,
    ensures
        next == y + node_height(node.dom_view()) + 1,
        boxes_view(final(out)@) == boxes_view(old(out)@) + layout_of(node.dom_view(), x as int, y as int, width as int),
    decreases node,
{
    let ghost nv = node.dom_view();
    let height = match node {
        DomNode::Text(text) => {
            let n = count_lines(text.as_str());
            if n > 1 { n } else { 1 }
        },
        DomNode::Element { children, .. } => {
            let ghost cs = nv->Element_2;
            assert(cs.len() == children@.len());
            assert(forall|k: int| 0 <= k < cs.len() ==> #[trigger] cs[k] == children@[k].dom_view());
            let mut cursor = y + 1;
            let child_width = if width >= 2 { width - 2 } else { 0 };
            let mut i: usize = 0;
            proof {
                lemma_children_decrease(node);
            }
            while i < children.len()
                invariant
                    node is Element,
                    node->children == *children,
                    forall|k: int| 0 <= k < children@.len() ==> decreases_to!(node => #[trigger] children@[k]),
                    i <= children@.len(),
                    cs.len() == children@.len(),
                    forall|k: int| 0 <= k < cs.len() ==> #[trigger] cs[k] == children@[k].dom_view(),
                    cursor == y + 1 + children_rows(cs.subrange(0, i as int)),
                    y + 1 + children_rows(cs) + 1 <= usize::MAX,
                    x + 2 + 2 * children_depth(cs) <= usize::MAX,
                    child_width == narrower(width as int),
                    boxes_view(out@) == boxes_view(old(out)@) + children_layout(cs.subrange(0, i as int), x + 2, y + 1, child_width as int),
                decreases children@.len() - i,
            {
                proof {
                    let pre = cs.subrange(0, i as int);
                    let pre2 = cs.subrange(0, i + 1);
                    assert(pre2.drop_last() =~= pre);
                    assert(pre2.last() == cs[i as int]);
                    lemma_children_rows_prefix(cs, i + 1);
                    lemma_children_depth_bound(cs, i as int);
                }
                cursor = walk_layout(&children[i], x + 2, cursor, child_width, out);
                i = i + 1;
            }
            assert(cs.subrange(0, children@.len() as int) =~= cs);
            cursor - y
        },
    };
    let ghost before = out@;
    out.push(LayoutBox { x, y, width, height, node: node.clone() });
    assert(boxes_view(out@) =~= boxes_view(before).push(out@.last().box_view()));
    assert(boxes_view(out@) =~= boxes_view(old(out)@) + layout_of(nv, x as int, y as int, width as int));
    y + height + 1
}

proof fn lemma_children_rows_prefix(cs: Seq<DomView>, k: int)
    requires
        0 <= k <= cs.len(),
    ensures
        children_rows(cs.subrange(0, k)) <= children_rows(cs),
    decreases cs.len() - k,
{
    if k < cs.len() {
        lemma_children_rows_prefix(cs, k + 1);
        let p = cs.subrange(0, k + 1);
        assert(p.drop_last() =~= cs.subrange(0, k));
    } else {
        assert(cs.subrange(0, k) =~= cs);
    }
}

/// The boxes of a document laid out from the top-left corner at the given
/// width, in the order children first, parent last.
pub fn simple_layout(root: &DomNode, width: usize) -> (boxes: Vec<LayoutBox>)
    requires
        node_height(root.dom_view()) + 1 <= usize::MAX,
        2 * node_depth(root.dom_view()) <= usize::MAX,
    ensures
        boxes_view(boxes@) == layout_of(root.dom_view(), 0, 0, width as int),
{
    let mut boxes: Vec<LayoutBox> = Vec::new();
    walk_layout(root, 0, 0, width, &mut boxes);
    assert(boxes_view(Seq::<LayoutBox>::empty()) =~= Seq::<BoxView>::empty());
    assert(Seq::<BoxView>::empty() + layout_of(root.dom_view(), 0, 0, width as int) =~= layout_of(root.dom_view(), 0, 0, width as int));
    boxes
}

} // verus!

verus! {

use crate::text::{lemma_encode_utf8_len, utf8_len_capped, join_lines, join_with_newlines, lemma_encode_utf8_concat, lemma_encode_utf8_space, push_char, push_str, spaces, strings_view};
use vstd::utf8::encode_utf8;
use vstd::string::StringSliceAdditionalSpecFns;

/// The last row a box touches, plus one separating row.
pub open spec fn box_bottom(b: BoxView) -> int {
    b.y + b.height + 1
}

/// The number of text rows a rendering needs: the largest bottom among the
/// boxes, or one when there are none.
pub open spec fn rows_needed(bs: Seq<BoxView>) -> int
    decreases bs.len(),
{
    if bs.len() == 0 {
        1
    } else if bs.len() == 1 {
        box_bottom(bs[0])
    } else {
        let a = rows_needed(bs.drop_last());
        let b = box_bottom(bs.last());
        if a > b { a } else { b }
    }
}

/// What a box shows: a text itself, an element its tag in angle brackets.
pub open spec fn box_label(n: DomView) -> Seq<char> {
    match n {
        DomView::Text(t) => t,
        DomView::Element(tag, _, _) => seq!['<'] + tag + seq!['>'],
    }
}

/// The line padded with spaces until its UTF-8 encoding is at least `x`
/// bytes long.
pub open spec fn pad_line(line: Seq<char>, x: int) -> Seq<char> {
    if encode_utf8(line).len() >= x {
        line
    } else {
        line + spaces((x - encode_utf8(line).len()) as nat)
    }
}

/// The rows after drawing each box in turn: its row is padded to its column,
/// then its label is appended.
pub open spec fn draw_boxes(rows: Seq<Seq<char>>, bs: Seq<BoxView>) -> Seq<Seq<char>>
    decreases bs.len(),
{
    if bs.len() == 0 {
        rows
    } else {
        let before = draw_boxes(rows, bs.drop_last());
        let b = bs.last();
        before.update(b.y, pad_line(before[b.y], b.x) + box_label(b.node))
    }
}

/// The ASCII rendering of a document laid out 80 columns wide.
pub open spec fn ascii_rendering(root: DomView) -> Seq<char> {
    let bs = layout_of(root, 0, 0, 80);
    join_lines(draw_boxes(Seq::new(rows_needed(bs) as nat, |i: int| Seq::<char>::empty()), bs))
}

/// Every box of a laid-out node lies between its top row and its bottom.
pub proof fn lemma_layout_rows(n: DomView, x: int, y: int, w: int)
    ensures
        forall|i: int|
            0 <= i < layout_of(n, x, y, w).len() ==> y <= #[trigger] layout_of(n, x, y, w)[i].y && box_bottom(
                layout_of(n, x, y, w)[i],
            ) <= y + node_height(n) + 1 && layout_of(n, x, y, w)[i].height >= 0,
        layout_of(n, x, y, w).len() > 0,
    decreases n,
{
    match n {
        DomView::Text(_) => {},
        DomView::Element(_, _, cs) => {
            lemma_children_rows_bound(cs, x + 2, y + 1, narrower(w));
        },
    }
}

/// Every box of laid-out siblings lies between their top row and the rows
/// they advance by.
pub proof fn lemma_children_rows_bound(cs: Seq<DomView>, x: int, y: int, w: int)
    ensures
        forall|i: int|
            0 <= i < children_layout(cs, x, y, w).len() ==> y <= #[trigger] children_layout(cs, x, y, w)[i].y
                && box_bottom(children_layout(cs, x, y, w)[i]) <= y + children_rows(cs)
                && children_layout(cs, x, y, w)[i].height >= 0,
    decreases cs,
{
    if cs.len() > 0 {
        let pre = cs.drop_last();
        lemma_children_rows_bound(pre, x, y, w);
        lemma_layout_rows(cs.last(), x, y + children_rows(pre), w);
        let l1 = children_layout(pre, x, y, w);
        let l2 = layout_of(cs.last(), x, y + children_rows(pre), w);
        assert(children_layout(cs, x, y, w) == l1 + l2);
        assert forall|i: int| 0 <= i < (l1 + l2).len() implies y <= #[trigger] (l1 + l2)[i].y && box_bottom((l1 + l2)[i]) <= y + children_rows(cs) && (l1 + l2)[i].height >= 0 by {
            if i >= l1.len() {
                assert((l1 + l2)[i] == l2[i - l1.len()]);
            }
        }
    }
}

proof fn lemma_rows_needed_bound(bs: Seq<BoxView>, limit: int)
    requires
        bs.len() > 0,
        forall|i: int| 0 <= i < bs.len() ==> #[trigger] box_bottom(bs[i]) <= limit,
    ensures
        rows_needed(bs) <= limit,
        forall|i: int| 0 <= i < bs.len() ==> #[trigger] box_bottom(bs[i]) <= rows_needed(bs),
    decreases bs.len(),
{
    if bs.len() > 1 {
        lemma_rows_needed_bound(bs.drop_last(), limit);
        assert forall|i: int| 0 <= i < bs.len() implies #[trigger] box_bottom(bs[i]) <= rows_needed(bs) by {
            if i < bs.len() - 1 {
                assert(bs[i] == bs.drop_last()[i]);
            }
        }
    }
}

/// Pads a line with spaces until its UTF-8 length reaches `x` bytes.
fn pad_to(line: &mut String, x: usize)
    ensures
        final(line)@ == pad_line(old(line)@, x as int),
{
    let ghost start = line@;
    let len = utf8_len_capped(line.as_str(), x);
    proof {
        lemma_encode_utf8_len(start);
    }
    let mut k: usize = len;
    while k < x
        invariant
            len <= k <= x || (len >= x && k == len),
            line@ == start + spaces((k - len) as nat),
        decreases x - k,
    {
        let ghost before = line@;
        push_char(line, ' ');
        assert(line@ =~= start + spaces((k + 1 - len) as nat));
        k = k + 1;
    }
    assert(start + spaces(0) =~= start);
}

/// The label of a box's node.
fn label_of(node: &DomNode) -> (s: String)
    ensures
        s@ == box_label(node.dom_view()),
{
    match node {
        DomNode::Text(text) => text.clone(),
        DomNode::Element { tag, .. } => {
            let mut s = String::new();
            push_char(&mut s, '<');
            push_str(&mut s, tag.as_str());
            push_char(&mut s, '>');
            assert(s@ =~= seq!['<'] + tag@ + seq!['>']);
            s
        },
    }
}

/// Renders a document as text: it is laid out 80 columns wide, each box's
/// label is written on its row at its column, and the rows are joined by
/// newlines.
pub fn render_ascii(root: &DomNode) -> (text: String)
    requires
        node_height(root.dom_view()) + 1 <= usize::MAX,
        2 * node_depth(root.dom_view()) <= usize::MAX,
    ensures
        text@ == ascii_rendering(root.dom_view()),
{
    let layout = simple_layout(root, 80);
    let ghost bs = boxes_view(layout@);
    proof {
        lemma_layout_rows(root.dom_view(), 0, 0, 80);
        assert forall|i: int| 0 <= i < bs.len() implies #[trigger] box_bottom(bs[i]) <= node_height(root.dom_view()) + 1 by {
            assert(bs[i] == layout_of(root.dom_view(), 0, 0, 80)[i]);
        }
        lemma_rows_needed_bound(bs, node_height(root.dom_view()) + 1int);
    }
    let mut count: usize = 0;
    let mut k: usize = 0;
    while k < layout.len()
        invariant
            k <= layout@.len(),
            bs == boxes_view(layout@),
            bs.len() > 0,
            forall|i: int| 0 <= i < bs.len() ==> #[trigger] box_bottom(bs[i]) <= rows_needed(bs),
            rows_needed(bs) <= node_height(root.dom_view()) + 1,
            node_height(root.dom_view()) + 1 <= usize::MAX,
            k == 0 ==> count == 0,
            k > 0 ==> count == rows_needed(bs.subrange(0, k as int)),
        decreases layout@.len() - k,
    {
        let ghost pre = bs.subrange(0, k as int);
        let ghost pre2 = bs.subrange(0, k + 1);
        assert(layout@[k as int].box_view() == bs[k as int]);
        assert(box_bottom(bs[k as int]) <= rows_needed(bs));
        let bottom = layout[k].y + layout[k].height + 1;
        if k == 0 || bottom > count {
            count = bottom;
        }
        proof {
            assert(pre2.drop_last() =~= pre);
            assert(pre2.last() == bs[k as int]);
        }
        k = k + 1;
    }
    assert(bs.subrange(0, bs.len() as int) =~= bs);
    let mut lines: Vec<String> = Vec::new();
    let mut r: usize = 0;
    while r < count
        invariant
            r <= count,
            lines@.len() == r,
            forall|j: int| 0 <= j < r ==> #[trigger] lines@[j]@ == Seq::<char>::empty(),
        decreases count - r,
    {
        lines.push(String::new());
        r = r + 1;
    }
    let ghost empty_rows = Seq::new(count as nat, |i: int| Seq::<char>::empty());
    assert(strings_view(lines@) =~= empty_rows);
    let mut k: usize = 0;
    while k < layout.len()
        invariant
            k <= layout@.len(),
            bs == boxes_view(layout@),
            count == rows_needed(bs),
            forall|i: int| 0 <= i < bs.len() ==> #[trigger] box_bottom(bs[i]) <= rows_needed(bs),
            forall|i: int| 0 <= i < bs.len() ==> (#[trigger] bs[i]).height >= 0,
            lines@.len() == count,
            strings_view(lines@) == draw_boxes(empty_rows, bs.subrange(0, k as int)),
        decreases layout@.len() - k,
    {
        let item = &layout[k];
        assert(item.box_view() == bs[k as int]);
        assert(box_bottom(bs[k as int]) <= count);
        let mut line = lines[item.y].clone();
        pad_to(&mut line, item.x);
        let label = label_of(&item.node);
        push_str(&mut line, label.as_str());
        let ghost before = strings_view(lines@);
        lines.set(item.y, line);
        proof {
            let pre2 = bs.subrange(0, k + 1);
            assert(pre2.drop_last() =~= bs.subrange(0, k as int));
            assert(pre2.last() == bs[k as int]);
            assert(strings_view(lines@) =~= before.update(item.y as int, pad_line(before[item.y as int], item.x as int) + box_label(item.node.dom_view())));
        }
        k = k + 1;
    }
    assert(bs.subrange(0, bs.len() as int) =~= bs);
    join_with_newlines(&lines)
}

} // verus!
