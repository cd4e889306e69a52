//! The tree as indented text, for a person to read.
//!
//! Each box is one line, `tag: {size: .., start address: .., end address: ..}`;
//! the children of a container follow it, each indented by one tab stop for
//! every level below the first. A chunk offset table adds a line with its
//! offsets, cut down to the first two where it has ten or more.

use crate::boxes::mp4_box::{refs_seq, BoxRef, Mp4Box};
use crate::model::{join, Mp4View, NodeView};
use crate::mp4::Mp4;
use vstd::prelude::*;
use vstd::string::StringExecFns;

verus! {

/// The text of the decimal digit `digit`.
pub open spec fn digit_text(digit: int) -> Seq<char> {
    if digit == 0 {
        "0"@
    } else if digit == 1 {
        "1"@
    } else if digit == 2 {
        "2"@
    } else if digit == 3 {
        "3"@
    } else if digit == 4 {
        "4"@
    } else if digit == 5 {
        "5"@
    } else if digit == 6 {
        "6"@
    } else if digit == 7 {
        "7"@
    } else if digit == 8 {
        "8"@
    } else {
        "9"@
    }
}

/// The decimal numeral of `n`, without leading zeros.
pub open spec fn decimal(n: nat) -> Seq<char>
    decreases n,
{
    if n < 10 {
        digit_text(n as int)
    } else {
        decimal(n / 10) + digit_text((n % 10) as int)
    }
}

/// `count` tab characters.
pub open spec fn tabs(count: nat) -> Seq<char>
    decreases count,
{
    if count == 0 {
        Seq::empty()
    } else {
        tabs((count - 1) as nat) + "\t"@
    }
}

/// The line that describes one box.
pub open spec fn headline(node: NodeView) -> Seq<char> {
    node.header().name + ": {size: "@ + decimal(node.header().size as nat) + ", start address: "@
        + decimal(node.header().start as nat) + ", end address: "@ + decimal(
        node.header().end() as nat,
    ) + "}\n"@
}

/// The numerals of `offsets`, separated by a comma and a space.
pub open spec fn listed(offsets: Seq<u64>) -> Seq<char>
    decreases offsets.len(),
{
    if offsets.len() == 0 {
        Seq::empty()
    } else if offsets.len() == 1 {
        decimal(offsets[0] as nat)
    } else {
        listed(offsets.drop_last()) + ", "@ + decimal(offsets.last() as nat)
    }
}

/// The text form of a chunk offset table on its own: one line that lists
/// all its offsets, however many there are.
pub open spec fn offsets_text(offsets: Seq<u64>) -> Seq<char> {
    "Offsets: ["@ + listed(offsets) + "]\n"@
}

/// The line that shows the offsets of a chunk offset table at depth
/// `level`: all of them where there are fewer than ten, else the first two
/// and an ellipsis. The line is indented one tab stop deeper than a child
/// of the table would be.
pub open spec fn offsets_line(offsets: Seq<u64>, level: int) -> Seq<char> {
    tabs((level + 1) as nat) + if offsets.len() < 10 {
        "offsets: ["@ + listed(offsets) + "]\n"@
    } else {
        "offsets:{"@ + decimal(offsets[0] as nat) + ", "@ + decimal(offsets[1] as nat)
            + ", ...}\n"@
    }
}

/// The number of tab stops by which a box at depth `level` is indented
/// under its parent: one for every level below the first.
pub open spec fn indent_of(level: int) -> nat {
    if level >= 1 {
        (level - 1) as nat
    } else {
        0
    }
}

impl NodeView {
    /// How many levels of containers a box of this type can hold below it.
    pub open spec fn rank(self) -> nat {
        match self {
            NodeView::Movie(_) => 5,
            NodeView::Track(_) => 4,
            NodeView::Media(_) => 3,
            NodeView::MediaInfo(_) => 2,
            NodeView::SampleTable(_) => 1,
            NodeView::EditLists(_) => 1,
            _ => 0,
        }
    }
}

/// The text of the box `node`: its line, then its children, then, for a
/// chunk offset table, the line with its offsets.
pub open spec fn rendered(node: NodeView) -> Seq<char>
    decreases node.rank(), 1nat, 0nat,
{
    headline(node) + (match node.children() {
        Some(children) => rendered_all(children, node.rank()),
        None => Seq::empty(),
    }) + (match node {
        NodeView::ChunkOffset(table) => offsets_line(table.offsets, table.level),
        _ => Seq::empty(),
    })
}

/// The text of the boxes `children`, each indented by its depth. (A child
/// always ranks below its parent; the test on the rank only serves as the
/// measure of the recursion.)
pub open spec fn rendered_all(children: Seq<NodeView>, bound: nat) -> Seq<char>
    decreases bound, 0nat, children.len(),
{
    if children.len() == 0 {
        Seq::empty()
    } else {
        let last = children.last();
        rendered_all(children.drop_last(), bound) + if last.rank() < bound {
            tabs(indent_of(last.level())) + rendered(last)
        } else {
            Seq::empty()
        }
    }
}

/// The text of a decoded file: a line that names the file and its length,
/// then the top-level boxes that were kept.
pub open spec fn rendered_file(root: Mp4View) -> Seq<char> {
    "file "@ + root.file + ", with size "@ + decimal(root.size as nat)
        + " has the following structure:\n"@ + rendered_all(root.children(), 6)
}

/// All of `boxes` rank below `bound`.
pub open spec fn lower(boxes: Seq<NodeView>, bound: nat) -> bool {
    forall|i: int| 0 <= i < boxes.len() ==> (#[trigger] boxes[i]).rank() < bound
}

/// Boxes that rank below a bound still do once they are joined.
pub proof fn lemma_lower_concat(a: Seq<NodeView>, b: Seq<NodeView>, bound: nat)
    requires
        lower(a, bound),
        lower(b, bound),
    ensures
        lower(a + b, bound),
{
    assert forall|i: int| 0 <= i < (a + b).len() implies (#[trigger] (a + b)[i]).rank()
        < bound by {
        if i < a.len() {
            assert((a + b)[i] == a[i]);
        } else {
            assert((a + b)[i] == b[i - a.len()]);
        }
    }
}

/// Boxes that rank below a bound still do once their parts are joined.
pub proof fn lemma_lower_join(parts: Seq<Seq<NodeView>>, bound: nat)
    requires
        forall|k: int| 0 <= k < parts.len() ==> lower(#[trigger] parts[k], bound),
    ensures
        lower(join(parts), bound),
    decreases parts.len(),
{
    if parts.len() > 0 {
        let front = parts.drop_last();
        assert forall|k: int| 0 <= k < front.len() implies lower(#[trigger] front[k], bound) by {
            assert(front[k] == parts[k]);
        }
        lemma_lower_join(front, bound);
        assert(parts.last() == parts[parts.len() - 1]);
        lemma_lower_concat(join(front), parts.last(), bound);
    }
}

/// The children of a box rank below it.
pub proof fn lemma_children_rank(node: NodeView)
    requires
        node.children() is Some,
    ensures
        lower(node.children()->0, node.rank()),
{
    match node {
        NodeView::Movie(b) => {
            assert(lower(b.track_children(), 5));
            lemma_lower_join(b.parts(), 5);
        },
        NodeView::Track(b) => lemma_lower_join(b.parts(), 4),
        NodeView::Media(b) => lemma_lower_join(b.parts(), 3),
        NodeView::MediaInfo(b) => lemma_lower_join(b.parts(), 2),
        NodeView::SampleTable(b) => lemma_lower_join(b.parts(), 1),
        NodeView::EditLists(b) => lemma_lower_join(b.parts(), 1),
        _ => {},
    }
}

/// The top-level boxes of a file rank below the file.
pub proof fn lemma_root_children_rank(root: Mp4View)
    ensures
        lower(root.children(), 6),
{
    lemma_lower_join(root.parts(), 6);
}

/// The text of one decimal digit.
fn digit_str(digit: u64) -> (text: &'static str)
    requires
        digit < 10,
    ensures
        text@ == digit_text(digit as int),
{
    if digit == 0 {
        "0"
    } else if digit == 1 {
        "1"
    } else if digit == 2 {
        "2"
    } else if digit == 3 {
        "3"
    } else if digit == 4 {
        "4"
    } else if digit == 5 {
        "5"
    } else if digit == 6 {
        "6"
    } else if digit == 7 {
        "7"
    } else if digit == 8 {
        "8"
    } else {
        "9"
    }
}

/// Appends the decimal numeral of `n` to `text`.
pub fn push_decimal(text: &mut String, n: u64)
    ensures
        final(text)@ == old(text)@ + decimal(n as nat),
    decreases n,
{
    if n >= 10 {
        push_decimal(text, n / 10);
    }
    text.append(digit_str(n % 10));
    assert(text@ =~= old(text)@ + decimal(n as nat));
}

/// Appends `count` tab characters to `text`.
pub fn push_tabs(text: &mut String, count: u8)
    ensures
        final(text)@ == old(text)@ + tabs(count as nat),
{
    let mut i: u8 = 0;
    assert(text@ =~= old(text)@ + tabs(0));
    while i < count
        invariant
            i <= count,
            text@ == old(text)@ + tabs(i as nat),
        decreases count - i,
    {
        text.append("\t");
        i += 1;
        assert(text@ =~= old(text)@ + tabs(i as nat));
    }
}

/// Appends the line that describes `node` to `text`.
fn push_headline(text: &mut String, node: &BoxRef<'_>)
    ensures
        final(text)@ == old(text)@ + headline(node@),
{
    text.append(node.name());
    text.append(": {size: ");
    push_decimal(text, node.size() as u64);
    text.append(", start address: ");
    push_decimal(text, node.start());
    text.append(", end address: ");
    push_decimal(text, node.end());
    text.append("}\n");
    assert(text@ =~= old(text)@ + headline(node@));
}

/// Appends the numerals of `offsets`, separated by commas, to `text`.
pub(crate) fn push_listed(text: &mut String, offsets: &Vec<u64>)
    ensures
        final(text)@ == old(text)@ + listed(offsets@),
{
    let mut i: usize = 0;
    assert(offsets@.take(0) =~= Seq::<u64>::empty());
    assert(text@ =~= old(text)@ + listed(offsets@.take(0)));
    while i < offsets.len()
        invariant
            i <= offsets@.len(),
            text@ == old(text)@ + listed(offsets@.take(i as int)),
        decreases offsets@.len() - i,
    {
        if i > 0 {
            text.append(", ");
        }
        push_decimal(text, offsets[i]);
        i += 1;
        proof {
            let now = offsets@.take(i as int);
            assert(now.drop_last() =~= offsets@.take(i - 1));
            assert(now.last() == offsets@[i - 1]);
            assert(text@ =~= old(text)@ + listed(now));
        }
    }
    assert(offsets@.take(i as int) =~= offsets@);
}

/// Appends the line that shows `offsets` to `text`.
fn push_offsets_line(text: &mut String, offsets: &Vec<u64>, level: u8)
    ensures
        final(text)@ == old(text)@ + offsets_line(offsets@, level as int),
{
    if level < u8::MAX {
        push_tabs(text, level + 1);
    } else {
        push_tabs(text, level);
        text.append("\t");
        assert(text@ =~= old(text)@ + tabs(256));
    }
    if offsets.len() < 10 {
        text.append("offsets: [");
        push_listed(text, offsets);
        text.append("]\n");
    } else {
        text.append("offsets:{");
        push_decimal(text, offsets[0]);
        text.append(", ");
        push_decimal(text, offsets[1]);
        text.append(", ...}\n");
    }
    assert(text@ =~= old(text)@ + offsets_line(offsets@, level as int));
}

/// Appends the text of the boxes `children` to `text`.
fn push_all(text: &mut String, children: &Vec<BoxRef<'_>>, Ghost(bound): Ghost<nat>)
    requires
        lower(refs_seq(children@), bound),
    ensures
        final(text)@ == old(text)@ + rendered_all(refs_seq(children@), bound),
    decreases bound, 0nat, children@.len(),
{
    let ghost all = refs_seq(children@);
    let mut i: usize = 0;
    assert(all.take(0) =~= Seq::<NodeView>::empty());
    assert(text@ =~= old(text)@ + rendered_all(all.take(0), bound));
    while i < children.len()
        invariant
            i <= children@.len(),
            all == refs_seq(children@),
            lower(all, bound),
            text@ == old(text)@ + rendered_all(all.take(i as int), bound),
        decreases children@.len() - i,
    {
        let child = &children[i];
        assert(all[i as int] == child@);
        let level = child.level();
        push_tabs(
            text,
            if level >= 1 {
                level - 1
            } else {
                0
            },
        );
        push_box(text, child);
        i += 1;
        proof {
            let now = all.take(i as int);
            assert(now.drop_last() =~= all.take(i - 1));
            assert(now.last() == child@);
            assert(text@ =~= old(text)@ + rendered_all(now, bound));
        }
    }
    assert(all.take(i as int) =~= all);
}

/// Appends the text of the box `node` to `text`.
fn push_box(text: &mut String, node: &BoxRef<'_>)
    ensures
        final(text)@ == old(text)@ + rendered(node@),
    decreases node@.rank(), 1nat, 0nat,
{
    push_headline(text, node);
    match node.fields() {
        Some(children) => {
            proof {
                lemma_children_rank(node@);
            }
            push_all(text, &children, Ghost(node@.rank()));
        },
        None => {},
    }
    match node {
        BoxRef::ChunkOffset(table) => {
            push_offsets_line(text, table.chunk_offsets(), table.level());
        },
        _ => {},
    }
    assert(text@ =~= old(text)@ + rendered(node@));
}

impl<'a> BoxRef<'a> {
    /// The box and what it holds as indented text.
    pub fn render(&self) -> (text: String)
        ensures
            text@ == rendered(self@),
    {
        let mut text = String::new();
        push_box(&mut text, self);
        assert(text@ =~= rendered(self@));
        text
    }
}

impl Mp4 {
    /// The decoded file as indented text.
    pub fn render(&self) -> (text: String)
        ensures
            text@ == rendered_file(self@),
    {
        let mut text = String::new();
        text.append("file ");
        text.append(self.file());
        text.append(", with size ");
        push_decimal(&mut text, self.size());
        text.append(" has the following structure:\n");
        let children = self.fields();
        proof {
            lemma_root_children_rank(self@);
        }
        push_all(&mut text, &children, Ghost(6));
        assert(text@ =~= rendered_file(self@));
        text
    }
}

} // verus!
