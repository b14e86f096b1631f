use vstd::prelude::*;

use crate::piece_kind::PieceKind;

verus! {

/// The slot of a kind that can be held in hand (Pawn to Rook), in `0..7`.
pub open spec fn slot(kind: PieceKind) -> Option<int> {
    if 1 <= kind.disc() <= 7 {
        Some(kind.disc() - 1)
    } else {
        None
    }
}

/// How many pieces of the kind in `slot` a full set holds.
pub open spec fn cap(slot: int) -> int {
    if slot == 0 {
        18
    } else if slot <= 4 {
        4
    } else {
        2
    }
}

/// The pieces a player holds in hand, counted per droppable kind
/// (Pawn, Lance, Knight, Silver, Gold, Bishop, Rook).
#[derive(Clone, Copy, Debug, PartialEq, Eq, Hash)]
pub struct Hand {
    pub counts: [u8; 7],
}

impl Hand {
    /// No count exceeds what a full set of pieces holds.
    pub open spec fn wf(self) -> bool {
        forall|i: int| 0 <= i < 7 ==> #[trigger] self.counts@[i] <= cap(i)
    }

    /// How many pieces of `kind` are held; `None` for a kind that cannot be held.
    pub open spec fn count_spec(self, kind: PieceKind) -> Option<int> {
        match slot(kind) {
            Some(i) => Some(self.counts@[i] as int),
            None => None,
        }
    }

    /// An empty hand.
    pub fn new() -> (r: Hand)
        ensures
            r.wf(),
            forall|i: int| 0 <= i < 7 ==> #[trigger] r.counts@[i] == 0,
    {
        Hand { counts: [0u8; 7] }
    }

    fn slot_of(kind: PieceKind) -> (r: Option<usize>)
        ensures
            r.is_some() == slot(kind).is_some(),
            r.is_some() ==> r.unwrap() == slot(kind).unwrap(),
    {
        let d = kind.to_u8();
        if 1 <= d && d <= 7 {
            Some((d - 1) as usize)
        } else {
            None
        }
    }

    fn cap_of(slot: usize) -> (r: u8)
        requires
            slot < 7,
        ensures
            r == cap(slot as int),
    {
        if slot == 0 {
            18
        } else if slot <= 4 {
            4
        } else {
            2
        }
    }

    /// How many pieces of `piece_kind` are held; `None` for a kind that cannot be held.
    pub fn count(&self, piece_kind: PieceKind) -> (r: Option<u8>)
        ensures
            r.is_some() == self.count_spec(piece_kind).is_some(),
            r.is_some() ==> r.unwrap() == self.count_spec(piece_kind).unwrap(),
    {
        match Hand::slot_of(piece_kind) {
            Some(i) => Some(self.counts[i]),
            None => None,
        }
    }

    /// The hand with one more piece of `piece_kind`; `None` if the kind cannot be
    /// held or a full set holds no more of it.
    pub fn added(&self, piece_kind: PieceKind) -> (r: Option<Hand>)
        requires
            self.wf(),
        ensures
            r.is_some() <==> (slot(piece_kind).is_some() && self.count_spec(piece_kind).unwrap()
                < cap(slot(piece_kind).unwrap())),
            r.is_some() ==> r.unwrap().wf() && r.unwrap().counts@ == self.counts@.update(
                slot(piece_kind).unwrap(),
                (self.counts@[slot(piece_kind).unwrap()] + 1) as u8,
            ),
    {
        match Hand::slot_of(piece_kind) {
            Some(i) => {
                if self.counts[i] < Hand::cap_of(i) {
                    let mut h = *self;
                    h.counts[i] = self.counts[i] + 1;
                    Some(h)
                } else {
                    None
                }
            },
            None => None,
        }
    }

    /// The hand with one piece of `piece_kind` fewer; `None` if none is held.
    pub fn removed(&self, piece_kind: PieceKind) -> (r: Option<Hand>)
        requires
            self.wf(),
        ensures
            r.is_some() <==> (slot(piece_kind).is_some() && self.count_spec(piece_kind).unwrap()
                > 0),
            r.is_some() ==> r.unwrap().wf() && r.unwrap().counts@ == self.counts@.update(
                slot(piece_kind).unwrap(),
                (self.counts@[slot(piece_kind).unwrap()] - 1) as u8,
            ),
    {
        match Hand::slot_of(piece_kind) {
            Some(i) => {
                if self.counts[i] > 0 {
                    let mut h = *self;
                    h.counts[i] = self.counts[i] - 1;
                    Some(h)
                } else {
                    None
                }
            },
            None => None,
        }
    }
}

impl Default for Hand {
    fn default() -> (r: Hand)
        ensures
            r.wf(),
            forall|i: int| 0 <= i < 7 ==> #[trigger] r.counts@[i] == 0,
    {
        Hand::new()
    }
}

} // verus!
