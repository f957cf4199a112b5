use vstd::prelude::*;
use vstd::string::StrSliceExecFns;
use std::collections::VecDeque;
use crate::constants::{Rotation, ShadingMode};
use crate::tokens::{Function, Token, TokenType};

verus! {

broadcast use vstd::string::to_string_from_display_ensures_for_str;

/// Why a token stream is not a valid script.
#[derive(Clone, Copy, Debug, PartialEq, Eq, Structural)]
pub enum ParseError {
    /// A command needed another token but the stream had ended.
    MissingToken,
    /// A token other than a command stands where a command must.
    UnexpectedToken,
    /// The axis of a rotation is not `x`, `y` or `z`.
    InvalidAxis,
    /// The shading mode is not `flat`, `gouraud` or `phong`.
    InvalidShading,
}

/// One parsed command: its function, the word that some commands take first
/// (the file of `save` and `mesh`, the name of `constants`), the name of the
/// reflection constants that shapes may be given, the numeric arguments as
/// written, the animation knob of a transform, and the axis or shading mode.
#[derive(Debug)]
pub struct Statement {
    pub function: Function,
    pub name: Option<String>,
    pub constants: Option<String>,
    pub args: Vec<String>,
    pub knob: Option<String>,
    pub axis: Option<Rotation>,
    pub shading: Option<ShadingMode>,
}

pub ghost struct StatementView {
    pub function: Function,
    pub name: Option<Seq<char>>,
    pub constants: Option<Seq<char>>,
    pub args: Seq<Seq<char>>,
    pub knob: Option<Seq<char>>,
    pub axis: Option<Rotation>,
    pub shading: Option<ShadingMode>,
}

pub open spec fn opt_view(o: Option<String>) -> Option<Seq<char>> {
    match o {
        Some(s) => Some(s@),
        None => None,
    }
}

impl View for Statement {
    type V = StatementView;

    open spec fn view(&self) -> StatementView {
        StatementView {
            function: self.function,
            name: opt_view(self.name),
            constants: opt_view(self.constants),
            args: self.args@.map_values(|a: String| a@),
            knob: opt_view(self.knob),
            axis: self.axis,
            shading: self.shading,
        }
    }
}

pub type TokenSeq = Seq<(Seq<char>, TokenType)>;

/// Numeric arguments each command takes.
pub open spec fn arity(f: Function) -> nat {
    match f {
        Function::Move | Function::Scale | Function::SetAmbient => 3,
        Function::Rotate => 1,
        Function::Line | Function::Box | Function::SetLight => 6,
        Function::Circle | Function::Sphere => 4,
        Function::Hermite | Function::Bezier => 8,
        Function::Polygon | Function::SetConstants => 9,
        Function::Torus => 5,
        _ => 0,
    }
}

/// Commands that may be preceded by the name of reflection constants.
pub open spec fn takes_constants(f: Function) -> bool {
    f == Function::Box || f == Function::Sphere || f == Function::Torus || f == Function::Mesh
}

/// Commands that read one word before their numbers.
pub open spec fn takes_word(f: Function) -> bool {
    f == Function::Save || f == Function::Mesh || f == Function::SetConstants || f == Function::Rotate
        || f == Function::SetShading
}

/// Commands that may be followed by an animation knob.
pub open spec fn takes_knob(f: Function) -> bool {
    f == Function::Move || f == Function::Scale || f == Function::Rotate
}

/// `c` is the lower-case letter `l`, or its ASCII upper-case form.
pub open spec fn lowers_to(c: char, l: char) -> bool {
    c == l || ('a' <= l <= 'z' && c as u32 + 32 == l as u32)
}

/// `w` equals the lower-case word `lower`, ignoring ASCII case.
pub open spec fn same_word(w: Seq<char>, lower: Seq<char>) -> bool {
    w.len() == lower.len() && forall|i: int| 0 <= i < w.len() ==> lowers_to(#[trigger] w[i], lower[i])
}

pub open spec fn axis_of(w: Seq<char>) -> Option<Rotation> {
    if same_word(w, "x"@) {
        Some(Rotation::X)
    } else if same_word(w, "y"@) {
        Some(Rotation::Y)
    } else if same_word(w, "z"@) {
        Some(Rotation::Z)
    } else {
        None
    }
}

pub open spec fn shading_of(w: Seq<char>) -> Option<ShadingMode> {
    if same_word(w, "flat"@) {
        Some(ShadingMode::Flat)
    } else if same_word(w, "gouraud"@) {
        Some(ShadingMode::Gouraud)
    } else if same_word(w, "phong"@) {
        Some(ShadingMode::Phong)
    } else {
        None
    }
}

/// The optional identifier at the front of `ts`, and what follows it.
pub open spec fn optional_identifier(ts: TokenSeq) -> (Option<Seq<char>>, TokenSeq) {
    if ts.len() > 0 && ts[0].1 == TokenType::Identifier {
        (Some(ts[0].0), ts.drop_first())
    } else {
        (None, ts)
    }
}

/// The statement of command `f` read from the tokens `ts` that follow it,
/// and the tokens left after it.
pub open spec fn parse_statement(f: Function, ts: TokenSeq) -> Result<(StatementView, TokenSeq), ParseError> {
    let (constants, ts1) = if takes_constants(f) { optional_identifier(ts) } else { (None, ts) };
    if takes_word(f) && ts1.len() == 0 {
        Err(ParseError::MissingToken)
    } else {
        let word = if takes_word(f) { Some(ts1[0].0) } else { None };
        let ts2 = if takes_word(f) { ts1.drop_first() } else { ts1 };
        let axis = if f == Function::Rotate { axis_of(word->Some_0) } else { None };
        let shading = if f == Function::SetShading { shading_of(word->Some_0) } else { None };
        if f == Function::Rotate && axis is None {
            Err(ParseError::InvalidAxis)
        } else if f == Function::SetShading && shading is None {
            Err(ParseError::InvalidShading)
        } else if ts2.len() < arity(f) {
            Err(ParseError::MissingToken)
        } else {
            let args = ts2.take(arity(f) as int).map_values(|t: (Seq<char>, TokenType)| t.0);
            let ts3 = ts2.skip(arity(f) as int);
            let (knob, ts4) = if takes_knob(f) { optional_identifier(ts3) } else { (None, ts3) };
            let name = if f == Function::Rotate || f == Function::SetShading { None } else { word };
            Ok((StatementView { function: f, name, constants, args, knob, axis, shading }, ts4))
        }
    }
}

/// The statements of a whole token stream: each must start with a command.
pub open spec fn parse_script(ts: TokenSeq) -> Result<Seq<StatementView>, ParseError>
    decreases ts.len(),
{
    if ts.len() == 0 {
        Ok(seq![])
    } else {
        match ts[0].1 {
            TokenType::Command(f) => match parse_statement(f, ts.drop_first()) {
                Ok((st, rest)) => if rest.len() < ts.len() {
                    match parse_script(rest) {
                        Ok(sts) => Ok(seq![st] + sts),
                        Err(e) => Err(e),
                    }
                } else {
                    Err(ParseError::UnexpectedToken)
                },
                Err(e) => Err(e),
            },
            _ => Err(ParseError::UnexpectedToken),
        }
    }
}

proof fn lemma_statement_consumes(f: Function, ts: TokenSeq)
    ensures
        parse_statement(f, ts) is Ok ==> parse_statement(f, ts)->Ok_0.1.len() <= ts.len(),
{
}

/// Reads a token stream into statements.
pub struct Parser {
    stack: VecDeque<Token>,
}

impl View for Parser {
    type V = TokenSeq;

    closed spec fn view(&self) -> TokenSeq {
        self.stack@.map_values(|t: Token| t@)
    }
}

pub(crate) fn lower_matches(w: &str, lower: &str) -> (r: bool)
    ensures
        r == same_word(w@, lower@),
{
    let n = w.unicode_len();
    if n != lower.unicode_len() {
        return false;
    }
    let mut i: usize = 0;
    while i < n
        invariant
            n == w@.len(),
            n == lower@.len(),
            i <= n,
            forall|j: int| 0 <= j < i ==> lowers_to(#[trigger] w@[j], lower@[j]),
        decreases n - i,
    {
        let c = w.get_char(i);
        let l = lower.get_char(i);
        if !(c == l || ('a' <= l && l <= 'z' && (c as u32) + 32 == l as u32)) {
            return false;
        }
        i = i + 1;
    }
    true
}

impl Parser {
    pub fn new() -> (r: Self)
        ensures
            r@ == Seq::<(Seq<char>, TokenType)>::empty(),
    {
        let r = Parser { stack: VecDeque::new() };
        assert(r@ =~= Seq::<(Seq<char>, TokenType)>::empty());
        r
    }

    /// The tokens not read yet.
    pub fn remaining(&self) -> (r: usize)
        ensures
            r == self@.len(),
    {
        self.stack.len()
    }

    /// Takes the front token if it is an identifier.
    pub fn pop_optional_identifier(&mut self) -> (r: Option<String>)
        ensures
            (opt_view(r), final(self)@) == optional_identifier(old(self)@),
    {
        if self.stack.len() > 0 && self.stack[0].token_type == TokenType::Identifier {
            let token = self.stack.pop_front();
            proof {
                assert(self@ =~= old(self)@.drop_first());
            }
            match token {
                Some(t) => Some(t.value),
                None => None,
            }
        } else {
            None
        }
    }

    /// Takes the front token.
    pub fn pop(&mut self) -> (r: Result<Token, ParseError>)
        ensures
            old(self)@.len() == 0 ==> r == Err::<Token, ParseError>(ParseError::MissingToken) && final(self)@ == old(self)@,
            old(self)@.len() > 0 ==> r is Ok && r->Ok_0@ == old(self)@[0] && final(self)@ == old(self)@.drop_first(),
    {
        let token = self.stack.pop_front();
        proof {
            assert(self@ =~= if old(self)@.len() > 0 { old(self)@.drop_first() } else { old(self)@ });
        }
        match token {
            Some(t) => Ok(t),
            None => Err(ParseError::MissingToken),
        }
    }

    fn pop_args(&mut self, count: usize) -> (r: Result<Vec<String>, ParseError>)
        ensures
            old(self)@.len() < count ==> r == Err::<Vec<String>, ParseError>(ParseError::MissingToken),
            old(self)@.len() >= count ==> r is Ok && r->Ok_0@.map_values(|a: String| a@) == old(self)@.take(count as int).map_values(|t: (Seq<char>, TokenType)| t.0)
                && final(self)@ == old(self)@.skip(count as int),
    {
        if self.stack.len() < count {
            return Err(ParseError::MissingToken);
        }
        let ghost start = self@;
        let mut args: Vec<String> = Vec::new();
        let mut i: usize = 0;
        while i < count
            invariant
                i <= count,
                start.len() >= count,
                self@ == start.skip(i as int),
                args@.map_values(|a: String| a@) == start.take(i as int).map_values(|t: (Seq<char>, TokenType)| t.0),
            decreases count - i,
        {
            let t = self.pop();
            match t {
                Ok(t) => {
                    let ghost before = args@.map_values(|a: String| a@);
                    args.push(t.value);
                    assert(start.take(i as int + 1) =~= start.take(i as int).push(start[i as int]));
                    assert(args@.map_values(|a: String| a@) =~= before.push(start[i as int].0));
                    assert(args@.map_values(|a: String| a@) =~= start.take(i as int + 1).map_values(|t: (Seq<char>, TokenType)| t.0));
                    assert(self@ =~= start.skip(i as int + 1));
                },
                Err(e) => {
                    return Err(e);
                },
            }
            i = i + 1;
        }
        Ok(args)
    }

    fn parse_command(&mut self, f: Function) -> (r: Result<Statement, ParseError>)
        ensures
            match parse_statement(f, old(self)@) {
                Ok((st, rest)) => r is Ok && r->Ok_0@ == st && final(self)@ == rest,
                Err(e) => r == Err::<Statement, ParseError>(e),
            },
    {
        let takes_constants = matches!(f, Function::Box | Function::Sphere | Function::Torus | Function::Mesh);
        let takes_word = matches!(f, Function::Save | Function::Mesh | Function::SetConstants | Function::Rotate | Function::SetShading);
        let takes_knob = matches!(f, Function::Move | Function::Scale | Function::Rotate);
        let count: usize = match f {
            Function::Move | Function::Scale | Function::SetAmbient => 3,
            Function::Rotate => 1,
            Function::Line | Function::Box | Function::SetLight => 6,
            Function::Circle | Function::Sphere => 4,
            Function::Hermite | Function::Bezier => 8,
            Function::Polygon | Function::SetConstants => 9,
            Function::Torus => 5,
            _ => 0,
        };
        let constants = if takes_constants { self.pop_optional_identifier() } else { None };
        let mut word: Option<String> = None;
        let mut axis: Option<Rotation> = None;
        let mut shading: Option<ShadingMode> = None;
        if takes_word {
            let t = self.pop()?;
            if let Function::Rotate = f {
                let v = t.value.as_str();
                axis = if lower_matches(v, "x") {
                    Some(Rotation::X)
                } else if lower_matches(v, "y") {
                    Some(Rotation::Y)
                } else if lower_matches(v, "z") {
                    Some(Rotation::Z)
                } else {
                    return Err(ParseError::InvalidAxis);
                };
            } else if let Function::SetShading = f {
                let v = t.value.as_str();
                shading = if lower_matches(v, "flat") {
                    Some(ShadingMode::Flat)
                } else if lower_matches(v, "gouraud") {
                    Some(ShadingMode::Gouraud)
                } else if lower_matches(v, "phong") {
                    Some(ShadingMode::Phong)
                } else {
                    return Err(ParseError::InvalidShading);
                };
            } else {
                word = Some(t.value);
            }
        }
        let args = self.pop_args(count)?;
        let knob = if takes_knob { self.pop_optional_identifier() } else { None };
        Ok(Statement { function: f, name: word, constants, args, knob, axis, shading })
    }

    /// Parses `tokens` into statements, one per command.
    pub fn create_syntax_tree(&mut self, tokens: VecDeque<Token>) -> (r: Result<Vec<Statement>, ParseError>)
        ensures
            match parse_script(tokens@.map_values(|t: Token| t@)) {
                Ok(sts) => r is Ok && r->Ok_0@.map_values(|s: Statement| s@) == sts,
                Err(e) => r == Err::<Vec<Statement>, ParseError>(e),
            },
    {
        let mut commands: Vec<Statement> = Vec::new();
        self.stack = tokens;
        let ghost all = self@;
        while self.stack.len() > 0
            invariant
                all == tokens@.map_values(|t: Token| t@),
                match parse_script(all) {
                    Ok(sts) => parse_script(self@) is Ok && sts == commands@.map_values(|s: Statement| s@) + parse_script(self@)->Ok_0,
                    Err(e) => parse_script(self@) == Err::<Seq<StatementView>, ParseError>(e),
                },
            decreases self@.len(),
        {
            let ghost before = self@;
            let token = self.pop()?;
            assert(before[0] == token@);
            assert(self@ == before.drop_first());
            match token.token_type {
                TokenType::Command(f) => {
                    proof {
                        lemma_statement_consumes(f, self@);
                    }
                    let st = match self.parse_command(f) {
                        Ok(st) => st,
                        Err(e) => {
                            assert(parse_script(before) == Err::<Seq<StatementView>, ParseError>(e));
                            return Err(e);
                        },
                    };
                    let ghost prev = commands@.map_values(|s: Statement| s@);
                    commands.push(st);
                    assert(commands@.map_values(|s: Statement| s@) =~= prev.push(st@));
                    proof {
                        if parse_script(all) is Ok {
                            assert(prev + parse_script(before)->Ok_0 =~= prev.push(st@) + parse_script(self@)->Ok_0);
                        }
                    }
                },
                _ => {
                    assert(parse_script(before) == Err::<Seq<StatementView>, ParseError>(ParseError::UnexpectedToken));
                    return Err(ParseError::UnexpectedToken);
                },
            }
        }
        assert(commands@.map_values(|s: Statement| s@) =~= commands@.map_values(|s: Statement| s@) + seq![]);
        Ok(commands)
    }
}

} // verus!
