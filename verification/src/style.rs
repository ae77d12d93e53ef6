use vstd::prelude::*;

verus! {

/// How a node lays out its children.
#[derive(Clone, Copy, Debug, PartialEq, Eq, Structural)]
pub enum Display {
    Block,
    Flex,
    Grid,
    /// Takes no room and is not shown.
    Hidden,
}

/// The direction in which a flex container lays out its children.
#[derive(Clone, Copy, Debug, PartialEq, Eq, Structural)]
pub enum Direction {
    Row,
    Column,
    RowReverse,
    ColumnReverse,
}

/// The layout style of one node. A length is in whole pixels; a side without
/// a length is sized by the layout engine. The alignments are the engine's
/// own values, which are handed on as they are; without one the engine
/// aligns as it does by itself.
#[derive(Clone, Copy, Debug, PartialEq, Eq)]
pub struct Style {
    pub width: Option<u16>,
    pub height: Option<u16>,
    pub display: Display,
    pub flex_direction: Direction,
    pub align_items: Option<taffy::AlignItems>,
    pub justify_content: Option<taffy::JustifyContent>,
}

/// The room that a layout may take along one axis.
#[derive(Clone, Copy, Debug, PartialEq, Eq, Structural)]
pub enum AvailableSpace {
    /// That many pixels.
    Definite(u16),
    /// As little as the content allows.
    MinContent,
    /// As much as the content asks for.
    MaxContent,
}

/// The room that a layout may take.
#[derive(Clone, Copy, Debug, PartialEq, Eq, Structural)]
pub struct Size {
    pub width: AvailableSpace,
    pub height: AvailableSpace,
}

impl Style {
    /// The style of a node on which nothing was set: a flex container sized
    /// by the engine.
    pub open spec fn initial() -> Style {
        Style {
            width: None,
            height: None,
            display: Display::Flex,
            flex_direction: Direction::Row,
            align_items: None,
            justify_content: None,
        }
    }

    /// The style of a leaf of a fixed size.
    pub open spec fn fixed(width: u16, height: u16) -> Style {
        Style { width: Some(width), height: Some(height), ..Style::initial() }
    }

    /// The style of a leaf of a fixed size.
    pub fn of_size(width: u16, height: u16) -> (s: Self)
        ensures
            s == Style::fixed(width, height),
    {
        Style {
            width: Some(width),
            height: Some(height),
            display: Display::Flex,
            flex_direction: Direction::Row,
            align_items: None,
            justify_content: None,
        }
    }

    pub fn new() -> (s: Self)
        ensures
            s == Style::initial(),
    {
        Style {
            width: None,
            height: None,
            display: Display::Flex,
            flex_direction: Direction::Row,
            align_items: None,
            justify_content: None,
        }
    }
}

impl Default for Style {
    fn default() -> (s: Self)
        ensures
            s == Style::initial(),
    {
        Style::new()
    }
}

impl Size {
    /// Room without a bound, for measuring content by itself.
    pub open spec fn unbounded() -> Size {
        Size { width: AvailableSpace::MaxContent, height: AvailableSpace::MaxContent }
    }

    /// Room of exactly `width` by `height` pixels.
    pub open spec fn exactly(width: u16, height: u16) -> Size {
        Size { width: AvailableSpace::Definite(width), height: AvailableSpace::Definite(height) }
    }

    pub fn max_content() -> (s: Self)
        ensures
            s == Size::unbounded(),
    {
        Size { width: AvailableSpace::MaxContent, height: AvailableSpace::MaxContent }
    }

    pub fn definite(width: u16, height: u16) -> (s: Self)
        ensures
            s == Size::exactly(width, height),
    {
        Size { width: AvailableSpace::Definite(width), height: AvailableSpace::Definite(height) }
    }
}

} // verus!
