//! The closed set of cell categories a board position may hold, and the cell
//! ("panel") value itself.

use vstd::prelude::*;

verus! {

/// Number of panel kinds, the empty marker included.
pub const KIND_COUNT: u8 = 22;

/// A category of board cell. Totally ordered only by declaration; the
/// ordinal mapping below is the stable one used for dense indexing and for
/// the binary encoding.
#[derive(Clone, Copy, PartialEq, Eq, Structural, Debug)]
pub enum PanelKind {
    Empty,
    Deck,
    Neutral,
    Home,
    Draw,
    Draw2x,
    Bonus,
    Bonus2x,
    Drop,
    Drop2x,
    Encounter,
    Encounter2x,
    Move,
    Move2x,
    Warp,
    WarpMove,
    WarpMove2x,
    Ice,
    Heal,
    Heal2x,
    Damage,
    Damage2x,
}

impl PanelKind {
    /// The stable ordinal of each kind: its position in the declaration
    /// order.
    pub open spec fn ordinal(self) -> int {
        match self {
            PanelKind::Empty => 0,
            PanelKind::Deck => 1,
            PanelKind::Neutral => 2,
            PanelKind::Home => 3,
            PanelKind::Draw => 4,
            PanelKind::Draw2x => 5,
            PanelKind::Bonus => 6,
            PanelKind::Bonus2x => 7,
            PanelKind::Drop => 8,
            PanelKind::Drop2x => 9,
            PanelKind::Encounter => 10,
            PanelKind::Encounter2x => 11,
            PanelKind::Move => 12,
            PanelKind::Move2x => 13,
            PanelKind::Warp => 14,
            PanelKind::WarpMove => 15,
            PanelKind::WarpMove2x => 16,
            PanelKind::Ice => 17,
            PanelKind::Heal => 18,
            PanelKind::Heal2x => 19,
            PanelKind::Damage => 20,
            PanelKind::Damage2x => 21,
        }
    }

    /// The kind whose ordinal is `v`, as a spec-level partial inverse.
    pub open spec fn from_ordinal(v: int) -> PanelKind {
        if v == 0 { PanelKind::Empty }
        else if v == 1 { PanelKind::Deck }
        else if v == 2 { PanelKind::Neutral }
        else if v == 3 { PanelKind::Home }
        else if v == 4 { PanelKind::Draw }
        else if v == 5 { PanelKind::Draw2x }
        else if v == 6 { PanelKind::Bonus }
        else if v == 7 { PanelKind::Bonus2x }
        else if v == 8 { PanelKind::Drop }
        else if v == 9 { PanelKind::Drop2x }
        else if v == 10 { PanelKind::Encounter }
        else if v == 11 { PanelKind::Encounter2x }
        else if v == 12 { PanelKind::Move }
        else if v == 13 { PanelKind::Move2x }
        else if v == 14 { PanelKind::Warp }
        else if v == 15 { PanelKind::WarpMove }
        else if v == 16 { PanelKind::WarpMove2x }
        else if v == 17 { PanelKind::Ice }
        else if v == 18 { PanelKind::Heal }
        else if v == 19 { PanelKind::Heal2x }
        else if v == 20 { PanelKind::Damage }
        else { PanelKind::Damage2x }
    }

    /// Every ordinal lies below `KIND_COUNT`, and the two spec maps invert
    /// each other.
    pub proof fn lemma_ordinal_bijective(self)
        ensures
            0 <= self.ordinal() < KIND_COUNT,
            PanelKind::from_ordinal(self.ordinal()) == self,
    {
    }

    /// The ordinal of a kind, as an executable byte.
    pub fn to_byte(self) -> (r: u8)
        ensures
            r == self.ordinal(),
    {
        match self {
            PanelKind::Empty => 0,
            PanelKind::Deck => 1,
            PanelKind::Neutral => 2,
            PanelKind::Home => 3,
            PanelKind::Draw => 4,
            PanelKind::Draw2x => 5,
            PanelKind::Bonus => 6,
            PanelKind::Bonus2x => 7,
            PanelKind::Drop => 8,
            PanelKind::Drop2x => 9,
            PanelKind::Encounter => 10,
            PanelKind::Encounter2x => 11,
            PanelKind::Move => 12,
            PanelKind::Move2x => 13,
            PanelKind::Warp => 14,
            PanelKind::WarpMove => 15,
            PanelKind::WarpMove2x => 16,
            PanelKind::Ice => 17,
            PanelKind::Heal => 18,
            PanelKind::Heal2x => 19,
            PanelKind::Damage => 20,
            PanelKind::Damage2x => 21,
        }
    }

    /// The kind with ordinal `v`, or `None` when `v` is no ordinal.
    pub fn try_from_byte(v: u8) -> (r: Option<PanelKind>)
        ensures
            v < KIND_COUNT ==> r == Some(PanelKind::from_ordinal(v as int)),
            v >= KIND_COUNT ==> r is None,
    {
        match v {
            0 => Some(PanelKind::Empty),
            1 => Some(PanelKind::Deck),
            2 => Some(PanelKind::Neutral),
            3 => Some(PanelKind::Home),
            4 => Some(PanelKind::Draw),
            5 => Some(PanelKind::Draw2x),
            6 => Some(PanelKind::Bonus),
            7 => Some(PanelKind::Bonus2x),
            8 => Some(PanelKind::Drop),
            9 => Some(PanelKind::Drop2x),
            10 => Some(PanelKind::Encounter),
            11 => Some(PanelKind::Encounter2x),
            12 => Some(PanelKind::Move),
            13 => Some(PanelKind::Move2x),
            14 => Some(PanelKind::Warp),
            15 => Some(PanelKind::WarpMove),
            16 => Some(PanelKind::WarpMove2x),
            17 => Some(PanelKind::Ice),
            18 => Some(PanelKind::Heal),
            19 => Some(PanelKind::Heal2x),
            20 => Some(PanelKind::Damage),
            21 => Some(PanelKind::Damage2x),
            _ => None,
        }
    }
}

/// One board position's typed content.
#[derive(Clone, Copy, PartialEq, Eq, Structural, Debug)]
pub struct Panel {
    pub kind: PanelKind,
}

impl Panel {
    /// The fill value for newly exposed board positions.
    pub open spec fn empty_spec() -> Panel {
        Panel { kind: PanelKind::Empty }
    }

    /// A panel of the given kind.
    pub fn new(kind: PanelKind) -> (r: Panel)
        ensures
            r.kind == kind,
    {
        Panel { kind }
    }

    /// The empty panel.
    #[verifier::when_used_as_spec(empty_spec)]
    pub fn empty() -> (r: Panel)
        ensures
            r == Panel::empty_spec(),
    {
        Panel { kind: PanelKind::Empty }
    }

    /// Whether this panel is the empty marker.
    pub open spec fn spec_is_empty(&self) -> bool {
        self.kind == PanelKind::Empty
    }

    /// Tests a panel for the empty marker.
    #[verifier::when_used_as_spec(spec_is_empty)]
    pub fn is_empty(&self) -> (r: bool)
        ensures
            r == self.spec_is_empty(),
    {
        self.kind == PanelKind::Empty
    }
}

/// Whether a panel holds no content. The row and column scans of the
/// collapse operation test against this.
pub fn empty(panel: &Panel) -> (r: bool)
    ensures
        r == panel.spec_is_empty(),
{
    panel.kind == PanelKind::Empty
}

} // verus!
