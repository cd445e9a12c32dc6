//! The syntax tree.

use vstd::prelude::*;

verus! {

/// A node of the syntax tree: what it is, its children in source order, and
/// the line of the token that introduced it.
#[derive(Debug)]
pub struct Node {
    pub data: NodeData,
    pub branches: Vec<Node>,
    pub line: u32,
}

/// What a node stands for: a construct of the language, or a leaf that
/// carries a literal's text.
#[derive(Debug, Clone, PartialEq)]
pub enum NodeData {
    Root,
    // Metadata
    SemVer,
    VM,
    Agent,
    // Containers
    Target,
    Monitor,
    // Targets
    IsStage,
    CostumeNum,
    Layer,
    Volume,
    // Targets (stage)
    Tempo,
    VideoState,
    VideoTransparency,
    TTSLanguage,
    // Targets (sprite)
    Visible,
    XPos,
    YPos,
    Size,
    Direction,
    RotationStyle,
    // Blocks
    Block,
    Uid,
    Opcode,
    Parent,
    Next,
    Input,
    Field,
    Mutation,
    Shadow,
    TopLevel,
    // Costumes
    Name,
    Path,
    Format,
    BitmapRes,
    CenterX,
    CenterY,
    // Sounds
    Rate,
    Samples,
    // Variables
    Variable,
    Value,
    IsCloud,
    // Lists
    Item,
    // Monitors
    Mode,
    Param,
    SpriteName,
    Width,
    Height,
    SliderMin,
    SliderMax,
    IsDiscrete,
    // Leaf data
    PrototypeData(String),
    BlockPtrData(String),
    SubstackData(String),
    DoubleData(String),
    PosDoubleData(String),
    PosIntData(String),
    IntData(String),
    AngleData(String),
    ColorData(String),
    StringData(String),
    BroadcastData(String),
    VariableData(String),
    ListData(String),
    NullData,
}

impl NodeData {
    /// Whether this is one of the leaf variants, which never have children.
    pub open spec fn is_leaf(&self) -> bool {
        match self {
            NodeData::PrototypeData(_) | NodeData::BlockPtrData(_) | NodeData::SubstackData(_)
            | NodeData::DoubleData(_) | NodeData::PosDoubleData(_) | NodeData::PosIntData(_)
            | NodeData::IntData(_) | NodeData::AngleData(_) | NodeData::ColorData(_)
            | NodeData::StringData(_) | NodeData::BroadcastData(_) | NodeData::VariableData(_)
            | NodeData::ListData(_) | NodeData::NullData => true,
            _ => false,
        }
    }
}

/// A `StringData` leaf with the given text and line.
pub open spec fn is_string_leaf(n: Node, text: Seq<char>, line: nat) -> bool {
    &&& n.data is StringData
    &&& n.data->StringData_0@ == text
    &&& n.branches@.len() == 0
    &&& n.line == line
}

} // verus!
