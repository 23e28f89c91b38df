//! Panel artwork sources and the dense-map key implementation for panel
//! kinds, for the per-kind texture cache of the rendering collaborator.

use vstd::prelude::*;

use crate::enum_map::{EnumKey, EnumMap};
use crate::panel::{PanelKind, KIND_COUNT};

verus! {

/// A dense map from panel kinds.
pub type PanelMap<T> = EnumMap<PanelKind, T>;

/// Gets the image source of a panel kind.
///
/// Returns `None` if a panel does not have an image representation.
pub fn panel_source(kind: PanelKind) -> (r: Option<&'static str>)
    ensures
        r is None <==> (kind == PanelKind::Empty || kind == PanelKind::Deck),
        kind == PanelKind::Neutral ==> (r matches Some(s) && s@ == "./img/neutral.png"@),
        kind == PanelKind::Home ==> (r matches Some(s) && s@ == "./img/home.png"@),
        kind == PanelKind::Encounter ==> (r matches Some(s) && s@ == "./img/encounter.png"@),
        kind == PanelKind::Draw ==> (r matches Some(s) && s@ == "./img/draw.png"@),
        kind == PanelKind::Bonus ==> (r matches Some(s) && s@ == "./img/bonus.png"@),
        kind == PanelKind::Drop ==> (r matches Some(s) && s@ == "./img/drop.png"@),
        kind == PanelKind::Warp ==> (r matches Some(s) && s@ == "./img/warp.png"@),
        kind == PanelKind::Draw2x ==> (r matches Some(s) && s@ == "./img/draw2x.png"@),
        kind == PanelKind::Bonus2x ==> (r matches Some(s) && s@ == "./img/bonus2x.png"@),
        kind == PanelKind::Drop2x ==> (r matches Some(s) && s@ == "./img/drop2x.png"@),
        kind == PanelKind::Encounter2x ==> (r matches Some(s) && s@ == "./img/encounter2x.png"@),
        kind == PanelKind::Move ==> (r matches Some(s) && s@ == "./img/move.png"@),
        kind == PanelKind::Move2x ==> (r matches Some(s) && s@ == "./img/move2x.png"@),
        kind == PanelKind::WarpMove ==> (r matches Some(s) && s@ == "./img/warpmove.png"@),
        kind == PanelKind::WarpMove2x ==> (r matches Some(s) && s@ == "./img/warpmove2x.png"@),
        kind == PanelKind::Ice ==> (r matches Some(s) && s@ == "./img/ice.png"@),
        kind == PanelKind::Heal ==> (r matches Some(s) && s@ == "./img/heal.png"@),
        kind == PanelKind::Heal2x ==> (r matches Some(s) && s@ == "./img/heal2x.png"@),
        kind == PanelKind::Damage ==> (r matches Some(s) && s@ == "./img/damage.png"@),
        kind == PanelKind::Damage2x ==> (r matches Some(s) && s@ == "./img/damage2x.png"@),
{
    match kind {
        PanelKind::Neutral => Some("./img/neutral.png"),
        PanelKind::Home => Some("./img/home.png"),
        PanelKind::Encounter => Some("./img/encounter.png"),
        PanelKind::Draw => Some("./img/draw.png"),
        PanelKind::Bonus => Some("./img/bonus.png"),
        PanelKind::Drop => Some("./img/drop.png"),
        PanelKind::Warp => Some("./img/warp.png"),
        PanelKind::Draw2x => Some("./img/draw2x.png"),
        PanelKind::Bonus2x => Some("./img/bonus2x.png"),
        PanelKind::Drop2x => Some("./img/drop2x.png"),
        PanelKind::Encounter2x => Some("./img/encounter2x.png"),
        PanelKind::Move => Some("./img/move.png"),
        PanelKind::Move2x => Some("./img/move2x.png"),
        PanelKind::WarpMove => Some("./img/warpmove.png"),
        PanelKind::WarpMove2x => Some("./img/warpmove2x.png"),
        PanelKind::Ice => Some("./img/ice.png"),
        PanelKind::Heal => Some("./img/heal.png"),
        PanelKind::Heal2x => Some("./img/heal2x.png"),
        PanelKind::Damage => Some("./img/damage.png"),
        PanelKind::Damage2x => Some("./img/damage2x.png"),
        PanelKind::Empty => None,
        PanelKind::Deck => None,
    }
}

impl EnumKey for PanelKind {
    /// One slot per panel kind.
    open spec fn size_spec() -> int {
        KIND_COUNT as int
    }

    /// The stable declaration-order ordinal.
    open spec fn index_of(self) -> int {
        self.ordinal()
    }

    proof fn lemma_index_bounds(self)
    {
        self.lemma_ordinal_bijective();
    }

    proof fn lemma_index_injective(a: Self, b: Self)
    {
        a.lemma_ordinal_bijective();
        b.lemma_ordinal_bijective();
    }

    fn length() -> (n: usize)
    {
        KIND_COUNT as usize
    }

    fn into_usize(variant: Self) -> (r: usize)
    {
        variant.to_byte() as usize
    }

    fn from_usize(index: usize) -> (r: Self)
    {
        match PanelKind::try_from_byte(index as u8) {
            Some(kind) => kind,
            None => PanelKind::Empty,
        }
    }
}

} // verus!
