use vstd::prelude::*;
use crate::dims::Skip;
use crate::tokens::Token;

verus! {

/// A value identifying where in the source a node came from:
/// a file id and a byte offset range. Never a pointer.
#[derive(Clone, Copy, PartialEq, Eq, Structural, Debug)]
pub struct SourceRef {
    pub file: u32,
    pub start: u32,
    pub end: u32,
}

impl SourceRef {
    pub fn none() -> (r: SourceRef)
        ensures
            r == (SourceRef { file: 0, start: 0, end: 0 }),
    {
        SourceRef { file: 0, start: 0, end: 0 }
    }
}

/// The two families a box can belong to.
#[derive(Clone, Copy, PartialEq, Eq, Structural, Debug)]
pub enum BoxType {
    Horizontal,
    Vertical,
}

/// The sizing directive a box was opened with: natural size, an exact
/// target, or the natural size spread by a fixed amount.
#[derive(Clone, Copy, PartialEq, Eq, Structural, Debug)]
pub enum ToOrSpread {
    Natural,
    To { dim: i32 },
    Spread { dim: i32 },
}

/// Where a finished box is delivered when its frame closes: appended to the
/// enclosing list, or stored into a box register of the symbol table.
#[derive(Clone, Copy, PartialEq, Eq, Structural, Debug)]
pub enum BoxTarget {
    ToList,
    ToRegister { index: usize, global: bool },
}

/// What produced a horizontal box, where that matters later.
#[derive(Clone, Copy, PartialEq, Eq, Structural, Debug)]
pub enum HBoxKind {
    Plain,
    /// The indentation box a paragraph starts with.
    ParIndent,
    /// A line produced by the paragraph splitter.
    ParLine,
}

/// An extension node contributed by a back-end. The node model only needs
/// its capability set: metrics, an opacity flag (opaque nodes are not
/// descended into), a kind tag and a textual payload for display.
#[derive(Clone, PartialEq, Eq, Debug)]
pub struct CustomNode {
    pub width: i32,
    pub height: i32,
    pub depth: i32,
    pub opaque: bool,
    pub tag: u32,
    pub text: String,
}

/// A finished box of either family. Its metrics are computed from the
/// children when the box is closed, honouring its sizing directive, and
/// stored here.
#[derive(Debug)]
pub enum TeXBox {
    H {
        children: Vec<HNode>,
        width: i32,
        height: i32,
        depth: i32,
        kind: HBoxKind,
        start: SourceRef,
        end: SourceRef,
    },
    V {
        children: Vec<VNode>,
        width: i32,
        height: i32,
        depth: i32,
        start: SourceRef,
        end: SourceRef,
    },
}

impl TeXBox {
    pub open spec fn spec_width(&self) -> int {
        match self {
            TeXBox::H { width, .. } => *width as int,
            TeXBox::V { width, .. } => *width as int,
        }
    }

    pub open spec fn spec_height(&self) -> int {
        match self {
            TeXBox::H { height, .. } => *height as int,
            TeXBox::V { height, .. } => *height as int,
        }
    }

    pub open spec fn spec_depth(&self) -> int {
        match self {
            TeXBox::H { depth, .. } => *depth as int,
            TeXBox::V { depth, .. } => *depth as int,
        }
    }

    pub open spec fn spec_family(&self) -> BoxType {
        match self {
            TeXBox::H { .. } => BoxType::Horizontal,
            TeXBox::V { .. } => BoxType::Vertical,
        }
    }

    pub fn width(&self) -> (r: i32)
        ensures
            r as int == self.spec_width(),
    {
        match self {
            TeXBox::H { width, .. } => *width,
            TeXBox::V { width, .. } => *width,
        }
    }

    pub fn height(&self) -> (r: i32)
        ensures
            r as int == self.spec_height(),
    {
        match self {
            TeXBox::H { height, .. } => *height,
            TeXBox::V { height, .. } => *height,
        }
    }

    pub fn depth(&self) -> (r: i32)
        ensures
            r as int == self.spec_depth(),
    {
        match self {
            TeXBox::H { depth, .. } => *depth,
            TeXBox::V { depth, .. } => *depth,
        }
    }
}

/// A node of a horizontal list.
#[derive(Debug)]
pub enum HNode {
    Char { char: char, width: i32, height: i32, depth: i32 },
    Space { skip: Skip },
    Kern { dim: i32 },
    Penalty { penalty: i32 },
    Rule { width: i32, height: i32, depth: i32 },
    Box(TeXBox),
    MathOn,
    MathOff,
    Mark { class: usize, toks: Vec<Token> },
    Insertion { class: usize, children: Vec<VNode> },
    VAdjust { children: Vec<VNode> },
    Whatsit { name: u32 },
    Custom(CustomNode),
    Discretionary,
}

/// A node of a vertical list.
#[derive(Debug)]
pub enum VNode {
    VSkip { skip: Skip },
    VKern { dim: i32 },
    Penalty { penalty: i32 },
    Rule { width: i32, height: i32, depth: i32 },
    Box(TeXBox),
    Mark { class: usize, toks: Vec<Token> },
    Insertion { class: usize, children: Vec<VNode> },
    Whatsit { name: u32 },
    Custom(CustomNode),
}

/// The classes a math atom can carry.
#[derive(Clone, Copy, PartialEq, Eq, Structural, Debug)]
pub enum MathClass {
    Ord,
    Op,
    Bin,
    Rel,
    Open,
    Close,
    Punct,
}

/// A math character: a code point with its class and font family,
/// as decoded from an encoded math code.
#[derive(Clone, Copy, PartialEq, Eq, Structural, Debug)]
pub struct MathChar {
    pub code_point: u32,
    pub cls: MathClass,
    pub fam: u32,
}

/// The kernel of a math nucleus.
#[derive(Debug)]
pub enum MathKernel {
    Empty,
    Char { code_point: u32, fam: u32 },
    List { children: Vec<MathNode> },
    Box(TeXBox),
}

/// The nucleus of a math atom.
#[derive(Debug)]
pub enum MathNucleus {
    Simple { cls: MathClass, limits: Option<bool>, kernel: MathKernel },
    VCenter { children: Vec<VNode>, start: SourceRef, end: SourceRef, scaled: ToOrSpread },
}

/// A math atom: a nucleus with optional subscript and superscript lists.
#[derive(Debug)]
pub struct MathAtom {
    pub nucleus: MathNucleus,
    pub sub: Option<Vec<MathNode>>,
    pub sup: Option<Vec<MathNode>>,
}

impl MathAtom {
    /// An atom of the given class whose kernel is a single math character,
    /// without scripts.
    pub fn of_char(mc: MathChar) -> (r: MathAtom)
        ensures
            r == (MathAtom {
                nucleus: MathNucleus::Simple {
                    cls: mc.cls,
                    limits: None,
                    kernel: MathKernel::Char { code_point: mc.code_point, fam: mc.fam },
                },
                sub: None,
                sup: None,
            }),
    {
        MathAtom {
            nucleus: MathNucleus::Simple {
                cls: mc.cls,
                limits: None,
                kernel: MathKernel::Char { code_point: mc.code_point, fam: mc.fam },
            },
            sub: None,
            sup: None,
        }
    }
}

/// A node of a math list.
#[derive(Debug)]
pub enum MathNode {
    Atom(MathAtom),
    Kern { dim: i32 },
    Glue { skip: Skip },
    Rule { width: i32, height: i32, depth: i32 },
    Penalty { penalty: i32 },
    Whatsit { name: u32 },
    Custom(CustomNode),
}

/// The deferred continuation a math sub-list is opened with: what to do
/// with its children when the matching group end closes it.
#[derive(Clone, Copy, PartialEq, Eq, Structural, Debug)]
pub enum MathListTarget {
    /// The children become the nucleus of a new atom of this class, which
    /// is appended to the enclosing math list.
    AtomNucleus { cls: MathClass, limits: Option<bool> },
    /// The children are appended to the enclosing math list as they are.
    Inline,
}

/// What a math frame was opened for.
#[derive(Clone, Copy, PartialEq, Eq, Structural, Debug)]
pub enum MathListType {
    /// The outermost frame of a math nest; `display` tells inline from
    /// display math.
    Top { display: bool },
    /// A sub-list with a deferred continuation.
    Target { target: MathListTarget },
}

/// What produced an open horizontal frame.
#[derive(Clone, Copy, PartialEq, Eq, Structural, Debug)]
pub enum HorizontalListType {
    Paragraph { start: SourceRef },
    HBox { sizing: ToOrSpread, target: BoxTarget, start: SourceRef },
    VAlign,
}

/// What produced an open vertical frame.
#[derive(Clone, Copy, PartialEq, Eq, Structural, Debug)]
pub enum VerticalListType {
    VBox { sizing: ToOrSpread, target: BoxTarget, start: SourceRef },
    HAlign,
    Insert { class: usize },
    VAdjust,
}

/// An open node list awaiting closure, stacked in the stomach's
/// `open_lists`.
#[derive(Debug)]
pub enum NodeList {
    Horizontal { tp: HorizontalListType, children: Vec<HNode> },
    Vertical { tp: VerticalListType, children: Vec<VNode> },
    Math { tp: MathListType, children: Vec<MathNode>, start: SourceRef },
}

impl NodeList {
    /// The children of a horizontal frame (empty for the other families).
    pub open spec fn h_children(self) -> Seq<HNode> {
        match self {
            NodeList::Horizontal { children, .. } => children@,
            _ => Seq::empty(),
        }
    }

    /// The children of a vertical frame (empty for the other families).
    pub open spec fn v_children(self) -> Seq<VNode> {
        match self {
            NodeList::Vertical { children, .. } => children@,
            _ => Seq::empty(),
        }
    }

    /// The children of a math frame (empty for the other families).
    pub open spec fn m_children(self) -> Seq<MathNode> {
        match self {
            NodeList::Math { children, .. } => children@,
            _ => Seq::empty(),
        }
    }

    pub open spec fn h_tp(self) -> Option<HorizontalListType> {
        match self {
            NodeList::Horizontal { tp, .. } => Some(tp),
            _ => None,
        }
    }

    pub open spec fn v_tp(self) -> Option<VerticalListType> {
        match self {
            NodeList::Vertical { tp, .. } => Some(tp),
            _ => None,
        }
    }

    pub open spec fn m_tp(self) -> Option<MathListType> {
        match self {
            NodeList::Math { tp, .. } => Some(tp),
            _ => None,
        }
    }

    pub open spec fn m_start(self) -> Option<SourceRef> {
        match self {
            NodeList::Math { start, .. } => Some(start),
            _ => None,
        }
    }

    /// Whether this frame was opened for a box of the given family.
    pub open spec fn is_box_frame_of(self, bt: BoxType) -> bool {
        match self {
            NodeList::Horizontal { tp: HorizontalListType::HBox { .. }, .. } => bt
                == BoxType::Horizontal,
            NodeList::Vertical { tp: VerticalListType::VBox { .. }, .. } => bt == BoxType::Vertical,
            _ => false,
        }
    }
}

// ------------------------------------------------------------------
// Node metrics. Every node answers its width, height and depth; boxes
// report the metrics stored when they were closed, so one level of
// inspection suffices.
// ------------------------------------------------------------------

pub open spec fn spec_hnode_width(n: HNode) -> int {
    match n {
        HNode::Char { width, .. } => width as int,
        HNode::Space { skip } => skip.base as int,
        HNode::Kern { dim } => dim as int,
        HNode::Penalty { .. } => 0,
        HNode::Rule { width, .. } => width as int,
        HNode::Box(b) => b.spec_width(),
        HNode::MathOn => 0,
        HNode::MathOff => 0,
        HNode::Mark { .. } => 0,
        HNode::Insertion { .. } => 0,
        HNode::VAdjust { .. } => 0,
        HNode::Whatsit { .. } => 0,
        HNode::Custom(c) => c.width as int,
        HNode::Discretionary => 0,
    }
}

pub open spec fn spec_hnode_height(n: HNode) -> int {
    match n {
        HNode::Char { height, .. } => height as int,
        HNode::Rule { height, .. } => height as int,
        HNode::Box(b) => b.spec_height(),
        HNode::Custom(c) => c.height as int,
        _ => 0,
    }
}

pub open spec fn spec_hnode_depth(n: HNode) -> int {
    match n {
        HNode::Char { depth, .. } => depth as int,
        HNode::Rule { depth, .. } => depth as int,
        HNode::Box(b) => b.spec_depth(),
        HNode::Custom(c) => c.depth as int,
        _ => 0,
    }
}

pub open spec fn spec_vnode_height(n: VNode) -> int {
    match n {
        VNode::VSkip { skip } => skip.base as int,
        VNode::VKern { dim } => dim as int,
        VNode::Penalty { .. } => 0,
        VNode::Rule { height, .. } => height as int,
        VNode::Box(b) => b.spec_height(),
        VNode::Mark { .. } => 0,
        VNode::Insertion { .. } => 0,
        VNode::Whatsit { .. } => 0,
        VNode::Custom(c) => c.height as int,
    }
}

pub open spec fn spec_vnode_depth(n: VNode) -> int {
    match n {
        VNode::Rule { depth, .. } => depth as int,
        VNode::Box(b) => b.spec_depth(),
        VNode::Custom(c) => c.depth as int,
        _ => 0,
    }
}

pub open spec fn spec_vnode_width(n: VNode) -> int {
    match n {
        VNode::Rule { width, .. } => width as int,
        VNode::Box(b) => b.spec_width(),
        VNode::Custom(c) => c.width as int,
        _ => 0,
    }
}

pub fn hnode_width(n: &HNode) -> (r: i32)
    ensures
        r as int == spec_hnode_width(*n),
{
    match n {
        HNode::Char { width, .. } => *width,
        HNode::Space { skip } => skip.base,
        HNode::Kern { dim } => *dim,
        HNode::Penalty { .. } => 0,
        HNode::Rule { width, .. } => *width,
        HNode::Box(b) => b.width(),
        HNode::MathOn => 0,
        HNode::MathOff => 0,
        HNode::Mark { .. } => 0,
        HNode::Insertion { .. } => 0,
        HNode::VAdjust { .. } => 0,
        HNode::Whatsit { .. } => 0,
        HNode::Custom(c) => c.width,
        HNode::Discretionary => 0,
    }
}

pub fn hnode_height(n: &HNode) -> (r: i32)
    ensures
        r as int == spec_hnode_height(*n),
{
    match n {
        HNode::Char { height, .. } => *height,
        HNode::Rule { height, .. } => *height,
        HNode::Box(b) => b.height(),
        HNode::Custom(c) => c.height,
        _ => 0,
    }
}

pub fn hnode_depth(n: &HNode) -> (r: i32)
    ensures
        r as int == spec_hnode_depth(*n),
{
    match n {
        HNode::Char { depth, .. } => *depth,
        HNode::Rule { depth, .. } => *depth,
        HNode::Box(b) => b.depth(),
        HNode::Custom(c) => c.depth,
        _ => 0,
    }
}

pub fn vnode_height(n: &VNode) -> (r: i32)
    ensures
        r as int == spec_vnode_height(*n),
{
    match n {
        VNode::VSkip { skip } => skip.base,
        VNode::VKern { dim } => *dim,
        VNode::Penalty { .. } => 0,
        VNode::Rule { height, .. } => *height,
        VNode::Box(b) => b.height(),
        VNode::Mark { .. } => 0,
        VNode::Insertion { .. } => 0,
        VNode::Whatsit { .. } => 0,
        VNode::Custom(c) => c.height,
    }
}

pub fn vnode_depth(n: &VNode) -> (r: i32)
    ensures
        r as int == spec_vnode_depth(*n),
{
    match n {
        VNode::Rule { depth, .. } => *depth,
        VNode::Box(b) => b.depth(),
        VNode::Custom(c) => c.depth,
        _ => 0,
    }
}

pub fn vnode_width(n: &VNode) -> (r: i32)
    ensures
        r as int == spec_vnode_width(*n),
{
    match n {
        VNode::Rule { width, .. } => *width,
        VNode::Box(b) => b.width(),
        VNode::Custom(c) => c.width,
        _ => 0,
    }
}

} // verus!
