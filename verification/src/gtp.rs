//! The data carried by the messages of the Go Text Protocol,
//! by which a controller drives an engine.

use vstd::prelude::*;

verus! {

/// A byte of a message.
pub type Byte = u8;

/// A piece of a message, as the bytes that are sent.
pub struct MessagePart {
    pub data: Vec<u8>,
}

/// Anything that a message can carry.
pub trait GtpType {

}

/// What fits on a single line of a message.
pub trait SingleLine {

}

/// The entities that the protocol does not take apart any further.
pub trait SimpleEntity {

}

/// An unsigned integer.
pub struct Int {
    pub data: u32,
}

impl SimpleEntity for Int {

}

/// A sequence of printable bytes without whitespace.
pub struct String {
    pub data: Vec<Byte>,
}

impl SimpleEntity for String {

}

/// An intersection of the board, or a pass.
pub enum Vertex {
    Pass,
    Coord(char, u8),
}

impl SimpleEntity for Vertex {

}

/// One of the two players.
pub enum Color {
    Black,
    White,
}

impl SimpleEntity for Color {

}

/// A vertex together with the player who plays there.
pub struct Move {
    pub color: Color,
    pub vertex: Vertex,
}

impl SimpleEntity for Move {

}

/// A truth value.
pub enum Boolean {
    False,
    True,
}

impl SimpleEntity for Boolean {

}

/// The kinds of simple entities.
pub enum Type {
    Int,
    Float,
    String,
    Vertex,
    Color,
    Move,
    Boolean,
}

/// Entities of one kind, separated by spaces.
pub struct List<T: SimpleEntity> {
    pub data: Vec<T>,
}

impl<T: SimpleEntity> SingleLine for List<T> {

}

// The protocol is unclear on the matter of alternatives of compound types.
// For now, we do the simpler thing.
/// An entity of one of two kinds.
pub enum Alternatives<T: SimpleEntity, S: SimpleEntity> {
    Left(T),
    Right(S),
}

impl<T: SimpleEntity, S: SimpleEntity> SingleLine for Alternatives<T, S> {

}

/// Single lines of one kind, one below the other.
pub struct MultilineList<T: SingleLine> {
    pub data: Vec<T>,
}

impl<T: SingleLine> GtpType for MultilineList<T> {

}

/// A line of text.
pub struct Line {
    pub data: Vec<Byte>,
}

impl SingleLine for Line {

}

} // verus!
