use vstd::prelude::*;

verus! {

/// A word of a script with its lexical class.
#[derive(Debug)]
pub struct Token {
    pub value: String,
    pub token_type: TokenType,
}

#[derive(Clone, Copy, Debug, PartialEq, Eq, Structural)]
pub enum TokenType {
    Command(Function),
    AxisOfRotation,
    Number,
    FilePath,
    Identifier,
}

/// The commands of the scripting language.
#[derive(Clone, Copy, Debug, PartialEq, Eq, Structural)]
pub enum Function {
    Display,
    Save,
    Clear,
    Push,
    Pop,
    Move,
    Scale,
    Rotate,
    Line,
    Circle,
    Hermite,
    Bezier,
    Polygon,
    Box,
    Sphere,
    Torus,
    Mesh,
    SetLight,
    SetAmbient,
    SetConstants,
    SetShading,
}

impl View for Token {
    type V = (Seq<char>, TokenType);

    open spec fn view(&self) -> (Seq<char>, TokenType) {
        (self.value@, self.token_type)
    }
}

} // verus!
