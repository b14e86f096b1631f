use vstd::prelude::*;

use crate::color::Color;
use crate::mv::Move;
use crate::position::PartialPosition;

verus! {

/// A position together with the position it started from and every move played since.
#[derive(Clone, Debug)]
pub struct Position {
    initial: PartialPosition,
    inner: PartialPosition,
    moves: Vec<Move>,
}

impl Position {
    /// The position it started from.
    pub closed spec fn initial_spec(&self) -> PartialPosition {
        self.initial
    }

    /// The current position.
    pub closed spec fn inner_spec(&self) -> PartialPosition {
        self.inner
    }

    /// The moves played from the initial position, in order.
    pub closed spec fn moves_spec(&self) -> Seq<Move> {
        self.moves@
    }

    /// A game that starts from `initial`, with no move played yet.
    pub fn arbitrary_position(initial: PartialPosition) -> (r: Position)
        ensures
            r.initial_spec() == initial,
            r.inner_spec() == initial,
            r.moves_spec() == Seq::<Move>::empty(),
    {
        Position { initial, inner: initial, moves: Vec::new() }
    }

    /// The current position.
    pub fn inner(&self) -> (r: &PartialPosition)
        ensures
            *r == self.inner_spec(),
    {
        &self.inner
    }

    /// The position the game started from.
    pub fn initial_position(&self) -> (r: &PartialPosition)
        ensures
            *r == self.initial_spec(),
    {
        &self.initial
    }

    /// The moves played so far.
    pub fn moves(&self) -> (r: &Vec<Move>)
        ensures
            r@ == self.moves_spec(),
    {
        &self.moves
    }

    /// The side to move.
    pub fn side_to_move(&self) -> (r: Color)
        ensures
            r == self.inner_spec()@.side,
    {
        self.inner.side_to_move()
    }

    /// The ply number of the current position.
    pub fn ply(&self) -> (r: u16)
        ensures
            r == self.inner_spec()@.ply,
    {
        self.inner.ply()
    }

    /// Plays `mv` on the current position and records it; where the move cannot be
    /// played, returns `None` and changes nothing.
    pub fn make_move(&mut self, mv: Move) -> (r: Option<()>)
        requires
            old(self).inner_spec().wf(),
        ensures
            r.is_some() == old(self).inner_spec()@.apply(mv).is_some(),
            r.is_some() ==> final(self).inner_spec()@ == old(self).inner_spec()@.apply(mv).unwrap()
                && final(self).moves_spec() == old(self).moves_spec().push(mv),
            r.is_none() ==> final(self).inner_spec() == old(self).inner_spec()
                && final(self).moves_spec() == old(self).moves_spec(),
            final(self).initial_spec() == old(self).initial_spec(),
            final(self).inner_spec().wf(),
    {
        let r = self.inner.make_move(mv);
        if r.is_some() {
            self.moves.push(mv);
        }
        r
    }
}

} // verus!
