//! Values that both the network protocol and the world format carry.
use vstd::prelude::*;

verus! {

/// A colour as red, green and blue bytes.
#[derive(Debug, Clone, Copy, Default, PartialEq, Eq)]
pub struct RGB(pub u8, pub u8, pub u8);

/// A two-dimensional vector of `f32` coordinates, each held as its IEEE 754 bit pattern.
#[derive(Debug, Clone, Copy, Default, PartialEq, Eq)]
pub struct Vector2(pub u32, pub u32);

/// A piece of network text: a literal, or a format string or localization key with
/// substitutions that are texts themselves.
#[derive(Debug, Default)]
pub enum Text {
    Literal(String),
    Formattable(String, Vec<Text>),
    Key(String, Vec<Text>),
    #[default]
    Invalid,
}

/// The abstract value of a [`Text`].
pub enum TextModel {
    Literal(Seq<char>),
    Formattable(Seq<char>, Seq<TextModel>),
    Key(Seq<char>, Seq<TextModel>),
    Invalid,
}

/// The abstract value of a text.
pub open spec fn text_model(t: Text) -> TextModel
    decreases t,
{
    match t {
        Text::Literal(s) => TextModel::Literal(s@),
        Text::Formattable(s, subs) => TextModel::Formattable(s@, texts_model(subs)),
        Text::Key(s, subs) => TextModel::Key(s@, texts_model(subs)),
        Text::Invalid => TextModel::Invalid,
    }
}

/// The abstract values of a list of texts.
pub open spec fn texts_model(subs: Vec<Text>) -> Seq<TextModel>
    decreases subs,
{
    Seq::new(
        subs@.len(),
        |i: int|
            if 0 <= i < subs@.len() {
                text_model(subs@[i])
            } else {
                TextModel::Invalid
            },
    )
}

impl View for Text {
    type V = TextModel;

    open spec fn view(&self) -> TextModel {
        text_model(*self)
    }
}

impl TextModel {
    /// The kind byte of a text.
    pub open spec fn code(self) -> u8 {
        match self {
            TextModel::Literal(_) => 0,
            TextModel::Formattable(_, _) => 1,
            TextModel::Key(_, _) => 2,
            TextModel::Invalid => 0,
        }
    }
}

impl Text {
    /// The kind byte that precedes a text in its encoding; an invalid text has kind 0.
    pub fn code(&self) -> (r: u8)
        ensures
            r == self@.code(),
    {
        match self {
            Text::Literal(_) => 0,
            Text::Formattable(_, _) => 1,
            Text::Key(_, _) => 2,
            _ => 0,
        }
    }
}

} // verus!
