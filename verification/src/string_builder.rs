//! Source text that grows statement by statement.
use crate::text::{join, joined, replace, replaced, texts};
use vstd::prelude::*;

verus! {

/// A part of a source text.
#[derive(Debug)]
pub enum Piece {
    /// One or more lines of text, indented by `depth`.
    Text { depth: usize, text: String },
    /// An empty line.
    Blank,
}

/// A part of a source text.
pub enum PieceModel {
    Text { depth: nat, text: Seq<char> },
    Blank,
}

impl View for Piece {
    type V = PieceModel;

    open spec fn view(&self) -> PieceModel {
        match *self {
            Piece::Text { depth, text } => PieceModel::Text { depth: depth as nat, text: text@ },
            Piece::Blank => PieceModel::Blank,
        }
    }
}

impl PieceModel {
    /// The piece with its indentation before each of its lines.
    pub open spec fn rendered(self) -> Seq<char> {
        match self {
            PieceModel::Text { depth, text } => indentation(depth) + replaced(
                text,
                "\n"@,
                "\n"@ + indentation(depth),
            ),
            PieceModel::Blank => Seq::empty(),
        }
    }

    /// The piece with `to` in place of `from` in its text.
    pub open spec fn replaced(self, from: Seq<char>, to: Seq<char>) -> PieceModel {
        match self {
            PieceModel::Text { depth, text } => PieceModel::Text { depth, text: replaced(text, from, to) },
            PieceModel::Blank => PieceModel::Blank,
        }
    }
}

/// `depth` tabs.
pub open spec fn indentation(depth: nat) -> Seq<char> {
    Seq::new(depth, |i: int| '\t')
}

/// `depth` tabs.
fn tabs(depth: usize) -> (res: String)
    ensures
        res@ == indentation(depth as nat),
{
    let mut res = String::new();
    let mut i: usize = 0;
    while i < depth
        invariant
            i <= depth,
            res@ == indentation(i as nat),
        decreases depth - i,
    {
        res.push('\t');
        i += 1;
        assert(res@ =~= indentation(i as nat));
    }
    assert(res@ =~= indentation(depth as nat));
    res
}

/// The text of all pieces, one below the other.
pub open spec fn rendered(pieces: Seq<PieceModel>) -> Seq<char> {
    joined(pieces.map_values(|piece: PieceModel| piece.rendered()), "\n"@)
}

/// A text that is not indented.
pub open spec fn line(text: Seq<char>) -> PieceModel {
    PieceModel::Text { depth: 0, text }
}

/// Builds a source text piece by piece.
#[derive(Debug)]
pub struct StringBuilder {
    pieces: Vec<Piece>,
    depth: usize,
}

impl View for StringBuilder {
    type V = Seq<PieceModel>;

    /// The pieces so far.
    closed spec fn view(&self) -> Seq<PieceModel> {
        self.pieces@.map_values(|piece: Piece| piece@)
    }
}

impl StringBuilder {
    /// The indentation of the next piece.
    pub closed spec fn depth_now(&self) -> nat {
        self.depth as nat
    }

    /// No pieces, and no indentation.
    pub fn new() -> (res: StringBuilder)
        ensures
            res@ == Seq::<PieceModel>::empty(),
            res.depth_now() == 0,
    {
        let res = StringBuilder { pieces: Vec::new(), depth: 0 };
        assert(res@ =~= Seq::<PieceModel>::empty());
        res
    }

    /// Adds a text at the current indentation.
    pub fn push(&mut self, text: &str)
        ensures
            final(self)@ == old(self)@.push(PieceModel::Text { depth: old(self).depth_now(), text: text@ }),
            final(self).depth_now() == old(self).depth_now(),
    {
        self.pieces.push(Piece::Text { depth: self.depth, text: text.to_owned() });
        assert(self@ =~= old(self)@.push(PieceModel::Text { depth: old(self).depth_now(), text: text@ }));
    }

    /// Adds an empty line.
    pub fn blank(&mut self)
        ensures
            final(self)@ == old(self)@.push(PieceModel::Blank),
            final(self).depth_now() == old(self).depth_now(),
    {
        self.pieces.push(Piece::Blank);
        assert(self@ =~= old(self)@.push(PieceModel::Blank));
    }

    /// Indents what follows one step more.
    pub fn indent(&mut self)
        requires
            old(self).depth_now() < usize::MAX,
        ensures
            final(self)@ == old(self)@,
            final(self).depth_now() == old(self).depth_now() + 1,
    {
        self.depth += 1;
    }

    /// Indents what follows one step less.
    pub fn dedent(&mut self)
        requires
            old(self).depth_now() > 0,
        ensures
            final(self)@ == old(self)@,
            final(self).depth_now() == old(self).depth_now() - 1,
    {
        self.depth -= 1;
    }

    /// Moves the pieces of `other` to the end of this text.
    pub fn append(&mut self, other: &mut StringBuilder)
        ensures
            final(self)@ == old(self)@ + old(other)@,
            final(self).depth_now() == old(self).depth_now(),
            final(other)@ == Seq::<PieceModel>::empty(),
            final(other).depth_now() == old(other).depth_now(),
    {
        self.pieces.append(&mut other.pieces);
        assert(self@ =~= old(self)@ + old(other)@);
        assert(other@ =~= Seq::<PieceModel>::empty());
    }

    /// The same text with `to` in place of `from` in every piece.
    pub fn replace(&self, from: &str, to: &str) -> (res: StringBuilder)
        ensures
            res@ == self@.map_values(|piece: PieceModel| piece.replaced(from@, to@)),
            res.depth_now() == self.depth_now(),
    {
        let mut pieces: Vec<Piece> = Vec::new();
        let mut i: usize = 0;
        while i < self.pieces.len()
            invariant
                i <= self.pieces@.len(),
                pieces@.len() == i,
                forall|j: int| 0 <= j < i ==> (#[trigger] pieces@[j])@ == self.pieces@[j]@.replaced(from@, to@),
            decreases self.pieces@.len() - i,
        {
            let piece = match &self.pieces[i] {
                Piece::Text { depth, text } => Piece::Text { depth: *depth, text: replace(text.as_str(), from, to) },
                Piece::Blank => Piece::Blank,
            };
            pieces.push(piece);
            i += 1;
        }
        let res = StringBuilder { pieces, depth: self.depth };
        assert(res@ =~= self@.map_values(|piece: PieceModel| piece.replaced(from@, to@)));
        res
    }

    /// The text of all pieces, one below the other.
    pub fn build(&self) -> (res: String)
        ensures
            res@ == rendered(self@),
    {
        let ghost all = self@.map_values(|piece: PieceModel| piece.rendered());
        let mut parts: Vec<String> = Vec::new();
        let mut i: usize = 0;
        while i < self.pieces.len()
            invariant
                i <= self.pieces@.len(),
                all == self@.map_values(|piece: PieceModel| piece.rendered()),
                texts(parts@) == all.take(i as int),
            decreases self.pieces@.len() - i,
        {
            assert(self@[i as int] == self.pieces@[i as int]@);
            let part = match &self.pieces[i] {
                Piece::Text { depth, text } => {
                    let indentation = tabs(*depth);
                    let line_break = "\n".to_owned().concat(indentation.as_str());
                    let lines = replace(text.as_str(), "\n", line_break.as_str());
                    indentation.concat(lines.as_str())
                },
                Piece::Blank => String::new(),
            };
            proof {
                assert(all[i as int] == part@);
                assert(all.take(i + 1) =~= all.take(i as int).push(part@));
                assert(texts(parts@.push(part)) =~= texts(parts@).push(part@));
            }
            parts.push(part);
            i += 1;
        }
        assert(all.take(i as int) =~= all);
        join(&parts, "\n")
    }

    /// The pieces so far.
    pub fn pieces(&self) -> (res: &Vec<Piece>)
        ensures
            res@.map_values(|piece: Piece| piece@) == self@,
    {
        &self.pieces
    }
}

} // verus!
