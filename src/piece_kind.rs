use vstd::prelude::*;

verus! {

/// Kinds of pieces: eight base kinds and six promoted ones.
#[derive(Clone, Copy, Debug, PartialEq, Eq, Hash, Structural)]
pub enum PieceKind {
    /// `歩`: one square forward.
    Pawn,
    /// `香`: any number of squares forward.
    Lance,
    /// `桂`: two squares forward and one sideways, jumping.
    Knight,
    /// `銀`: one square forward or diagonally.
    Silver,
    /// `金`: one square orthogonally or diagonally forward.
    Gold,
    /// `角`: any number of squares diagonally.
    Bishop,
    /// `飛`: any number of squares orthogonally.
    Rook,
    /// `玉`: one square in any direction.
    King,
    /// `と`: moves as a gold.
    ProPawn,
    /// `成香`: moves as a gold.
    ProLance,
    /// `成桂`: moves as a gold.
    ProKnight,
    /// `成銀`: moves as a gold.
    ProSilver,
    /// `馬`: a bishop that also steps one square orthogonally.
    ProBishop,
    /// `竜`: a rook that also steps one square diagonally.
    ProRook,
}

impl PieceKind {
    /// The discriminant, in `1..=14`.
    pub open spec fn disc(self) -> int {
        match self {
            PieceKind::Pawn => 1,
            PieceKind::Lance => 2,
            PieceKind::Knight => 3,
            PieceKind::Silver => 4,
            PieceKind::Gold => 5,
            PieceKind::Bishop => 6,
            PieceKind::Rook => 7,
            PieceKind::King => 8,
            PieceKind::ProPawn => 9,
            PieceKind::ProLance => 10,
            PieceKind::ProKnight => 11,
            PieceKind::ProSilver => 12,
            PieceKind::ProBishop => 13,
            PieceKind::ProRook => 14,
        }
    }

    pub open spec fn promote_spec(self) -> Option<PieceKind> {
        match self {
            PieceKind::Pawn => Some(PieceKind::ProPawn),
            PieceKind::Lance => Some(PieceKind::ProLance),
            PieceKind::Knight => Some(PieceKind::ProKnight),
            PieceKind::Silver => Some(PieceKind::ProSilver),
            PieceKind::Bishop => Some(PieceKind::ProBishop),
            PieceKind::Rook => Some(PieceKind::ProRook),
            _ => None,
        }
    }

    pub open spec fn unpromote_spec(self) -> Option<PieceKind> {
        match self {
            PieceKind::ProPawn => Some(PieceKind::Pawn),
            PieceKind::ProLance => Some(PieceKind::Lance),
            PieceKind::ProKnight => Some(PieceKind::Knight),
            PieceKind::ProSilver => Some(PieceKind::Silver),
            PieceKind::ProBishop => Some(PieceKind::Bishop),
            PieceKind::ProRook => Some(PieceKind::Rook),
            _ => None,
        }
    }

    /// The kind a captured piece of this kind becomes in hand.
    pub open spec fn base(self) -> PieceKind {
        match self.unpromote_spec() {
            Some(k) => k,
            None => self,
        }
    }

    /// The promoted version of `self`; `None` for a kind that cannot promote.
    pub fn promote(self) -> (r: Option<PieceKind>)
        ensures
            r == self.promote_spec(),
    {
        match self {
            PieceKind::Pawn => Some(PieceKind::ProPawn),
            PieceKind::Lance => Some(PieceKind::ProLance),
            PieceKind::Knight => Some(PieceKind::ProKnight),
            PieceKind::Silver => Some(PieceKind::ProSilver),
            PieceKind::Gold => None,
            PieceKind::Bishop => Some(PieceKind::ProBishop),
            PieceKind::Rook => Some(PieceKind::ProRook),
            PieceKind::King => None,
            PieceKind::ProPawn => None,
            PieceKind::ProLance => None,
            PieceKind::ProKnight => None,
            PieceKind::ProSilver => None,
            PieceKind::ProBishop => None,
            PieceKind::ProRook => None,
        }
    }

    /// The unpromoted version of `self`; `None` for a kind that is not promoted.
    pub fn unpromote(self) -> (r: Option<PieceKind>)
        ensures
            r == self.unpromote_spec(),
    {
        match self {
            PieceKind::Pawn => None,
            PieceKind::Lance => None,
            PieceKind::Knight => None,
            PieceKind::Silver => None,
            PieceKind::Gold => None,
            PieceKind::Bishop => None,
            PieceKind::Rook => None,
            PieceKind::King => None,
            PieceKind::ProPawn => Some(PieceKind::Pawn),
            PieceKind::ProLance => Some(PieceKind::Lance),
            PieceKind::ProKnight => Some(PieceKind::Knight),
            PieceKind::ProSilver => Some(PieceKind::Silver),
            PieceKind::ProBishop => Some(PieceKind::Bishop),
            PieceKind::ProRook => Some(PieceKind::Rook),
        }
    }

    /// The kind of discriminant `repr`; `None` unless `repr` is in `1..=14`.
    pub fn from_u8(repr: u8) -> (r: Option<PieceKind>)
        ensures
            r.is_some() <==> 1 <= repr <= 14,
            r.is_some() ==> r.unwrap().disc() == repr,
    {
        match repr {
            1 => Some(PieceKind::Pawn),
            2 => Some(PieceKind::Lance),
            3 => Some(PieceKind::Knight),
            4 => Some(PieceKind::Silver),
            5 => Some(PieceKind::Gold),
            6 => Some(PieceKind::Bishop),
            7 => Some(PieceKind::Rook),
            8 => Some(PieceKind::King),
            9 => Some(PieceKind::ProPawn),
            10 => Some(PieceKind::ProLance),
            11 => Some(PieceKind::ProKnight),
            12 => Some(PieceKind::ProSilver),
            13 => Some(PieceKind::ProBishop),
            14 => Some(PieceKind::ProRook),
            _ => None,
        }
    }

    /// The discriminant, in `1..=14`.
    pub fn to_u8(self) -> (r: u8)
        ensures
            r == self.disc(),
    {
        match self {
            PieceKind::Pawn => 1,
            PieceKind::Lance => 2,
            PieceKind::Knight => 3,
            PieceKind::Silver => 4,
            PieceKind::Gold => 5,
            PieceKind::Bishop => 6,
            PieceKind::Rook => 7,
            PieceKind::King => 8,
            PieceKind::ProPawn => 9,
            PieceKind::ProLance => 10,
            PieceKind::ProKnight => 11,
            PieceKind::ProSilver => 12,
            PieceKind::ProBishop => 13,
            PieceKind::ProRook => 14,
        }
    }

    /// All fourteen kinds in ascending order of their discriminants.
    pub open spec fn all_spec() -> Seq<PieceKind> {
        seq![
            PieceKind::Pawn,
            PieceKind::Lance,
            PieceKind::Knight,
            PieceKind::Silver,
            PieceKind::Gold,
            PieceKind::Bishop,
            PieceKind::Rook,
            PieceKind::King,
            PieceKind::ProPawn,
            PieceKind::ProLance,
            PieceKind::ProKnight,
            PieceKind::ProSilver,
            PieceKind::ProBishop,
            PieceKind::ProRook,
        ]
    }

    /// All fourteen kinds in ascending order of their discriminants.
    pub fn all() -> (r: [PieceKind; 14])
        ensures
            r@ == Self::all_spec(),
            forall|i: int| 0 <= i < 14 ==> #[trigger] r@[i].disc() == i + 1,
    {
        let r = [
            PieceKind::Pawn,
            PieceKind::Lance,
            PieceKind::Knight,
            PieceKind::Silver,
            PieceKind::Gold,
            PieceKind::Bishop,
            PieceKind::Rook,
            PieceKind::King,
            PieceKind::ProPawn,
            PieceKind::ProLance,
            PieceKind::ProKnight,
            PieceKind::ProSilver,
            PieceKind::ProBishop,
            PieceKind::ProRook,
        ];
        assert(r@ =~= Self::all_spec());
        r
    }
}

/// Promotion and unpromotion are inverse to each other; King and Gold never promote,
/// and a promoted kind never promotes further.
pub proof fn lemma_promotion_pairs(k: PieceKind)
    ensures
        k.promote_spec() is Some ==> k.promote_spec().unwrap().unpromote_spec() == Some(k),
        k.unpromote_spec() is Some ==> k.unpromote_spec().unwrap().promote_spec() == Some(k),
        k.unpromote_spec() is Some ==> k.promote_spec() is None,
        (k == PieceKind::King || k == PieceKind::Gold) ==> k.promote_spec() is None,
{
}

/// `Option<PieceKind>` as one byte: `0` for `None`, the discriminant otherwise.
#[derive(Clone, Copy, Debug, PartialEq, Eq, Structural)]
pub struct OptionPieceKind(pub u8);

impl From<Option<PieceKind>> for OptionPieceKind {
    fn from(arg: Option<PieceKind>) -> (r: OptionPieceKind)
        ensures
            r.0 == match arg {
                Some(k) => k.disc(),
                None => 0,
            },
    {
        OptionPieceKind(
            match arg {
                Some(k) => k.to_u8(),
                None => 0,
            },
        )
    }
}

impl vstd::std_specs::convert::FromSpecImpl<Option<PieceKind>> for OptionPieceKind {
    open spec fn obeys_from_spec() -> bool {
        true
    }

    open spec fn from_spec(arg: Option<PieceKind>) -> OptionPieceKind {
        OptionPieceKind(
            match arg {
                Some(k) => k.disc() as u8,
                None => 0,
            },
        )
    }
}

} // verus!
