use vstd::prelude::*;
use vstd::string::StrSliceExecFns;
use crate::tokens::{Function, Token, TokenType};

verus! {

broadcast use vstd::string::to_string_from_display_ensures_for_str;

pub open spec fn is_blank(c: char) -> bool {
    c == ' ' || c == '\t' || c == '\n' || c == '\r' || c == '\x0b' || c == '\x0c'
}

pub open spec fn is_digit(c: char) -> bool {
    '0' <= c <= '9'
}

/// The words of `s` from position `i` on, where `start` is where the word
/// being read began, if one is; words are maximal runs of non-blank chars.
pub open spec fn scan_words(s: Seq<char>, i: int, start: Option<int>) -> Seq<Seq<char>>
    decreases s.len() - i,
{
    if i >= s.len() {
        match start {
            Some(b) => seq![s.subrange(b, s.len() as int)],
            None => seq![],
        }
    } else if is_blank(s[i]) {
        match start {
            Some(b) => seq![s.subrange(b, i)] + scan_words(s, i + 1, None),
            None => scan_words(s, i + 1, None),
        }
    } else {
        scan_words(s, i + 1, if start is Some { start } else { Some(i) })
    }
}

pub open spec fn words(s: Seq<char>) -> Seq<Seq<char>> {
    scan_words(s, 0, None)
}

/// A line whose first word starts with `#` or `//` is a comment.
pub open spec fn is_comment(w: Seq<char>) -> bool {
    (w.len() >= 1 && w[0] == '#') || (w.len() >= 2 && w[0] == '/' && w[1] == '/')
}

/// The words of a line that are read as tokens: none for a comment line.
pub open spec fn line_words(s: Seq<char>) -> Seq<Seq<char>> {
    if words(s).len() > 0 && is_comment(words(s)[0]) {
        seq![]
    } else {
        words(s)
    }
}

/// The token type of a reserved word, if `w` is one.
pub open spec fn keyword(w: Seq<char>) -> Option<TokenType> {
    if w == "display"@ {
        Some(TokenType::Command(Function::Display))
    } else if w == "save"@ {
        Some(TokenType::Command(Function::Save))
    } else if w == "clear"@ {
        Some(TokenType::Command(Function::Clear))
    } else if w == "push"@ {
        Some(TokenType::Command(Function::Push))
    } else if w == "pop"@ {
        Some(TokenType::Command(Function::Pop))
    } else if w == "move"@ {
        Some(TokenType::Command(Function::Move))
    } else if w == "scale"@ {
        Some(TokenType::Command(Function::Scale))
    } else if w == "rotate"@ {
        Some(TokenType::Command(Function::Rotate))
    } else if w == "x"@ || w == "y"@ || w == "z"@ {
        Some(TokenType::AxisOfRotation)
    } else if w == "line"@ {
        Some(TokenType::Command(Function::Line))
    } else if w == "circle"@ {
        Some(TokenType::Command(Function::Circle))
    } else if w == "hermite"@ {
        Some(TokenType::Command(Function::Hermite))
    } else if w == "bezier"@ {
        Some(TokenType::Command(Function::Bezier))
    } else if w == "polygon"@ {
        Some(TokenType::Command(Function::Polygon))
    } else if w == "box"@ {
        Some(TokenType::Command(Function::Box))
    } else if w == "sphere"@ {
        Some(TokenType::Command(Function::Sphere))
    } else if w == "torus"@ {
        Some(TokenType::Command(Function::Torus))
    } else if w == "mesh"@ {
        Some(TokenType::Command(Function::Mesh))
    } else if w == "light"@ {
        Some(TokenType::Command(Function::SetLight))
    } else if w == "ambient"@ {
        Some(TokenType::Command(Function::SetAmbient))
    } else if w == "constants"@ {
        Some(TokenType::Command(Function::SetConstants))
    } else if w == "shading"@ {
        Some(TokenType::Command(Function::SetShading))
    } else {
        None
    }
}

pub open spec fn number_char(c: char) -> bool {
    is_digit(c) || c == '.' || c == '-' || c == '+' || c == 'e' || c == 'E'
}

/// A numeric literal: it starts with a digit, a sign or a point, holds only
/// digits, points, signs and exponent marks, and at least one digit.
pub open spec fn is_number(w: Seq<char>) -> bool {
    &&& w.len() > 0
    &&& (is_digit(w[0]) || w[0] == '-' || w[0] == '+' || w[0] == '.')
    &&& forall|i: int| 0 <= i < w.len() ==> number_char(#[trigger] w[i])
    &&& exists|i: int| 0 <= i < w.len() && is_digit(#[trigger] w[i])
}

pub open spec fn classify(w: Seq<char>) -> TokenType {
    match keyword(w) {
        Some(t) => t,
        None => if is_number(w) {
            TokenType::Number
        } else if w.contains('.') || w.contains('/') {
            TokenType::FilePath
        } else {
            TokenType::Identifier
        },
    }
}

/// The tokens of the first `n` lines: every word of every line that is not a
/// comment, in order, with its class.
pub open spec fn lexed(lines: Seq<Seq<char>>, n: nat) -> Seq<(Seq<char>, TokenType)>
    decreases n,
{
    if n == 0 {
        seq![]
    } else {
        lexed(lines, (n - 1) as nat) + line_words(lines[n - 1]).map_values(|w: Seq<char>| (w, classify(w)))
    }
}

fn same_chars(a: &str, b: &str) -> (r: bool)
    ensures
        r == (a@ == b@),
{
    let n = a.unicode_len();
    if n != b.unicode_len() {
        return false;
    }
    let mut i: usize = 0;
    while i < n
        invariant
            n == a@.len(),
            n == b@.len(),
            i <= n,
            forall|j: int| 0 <= j < i ==> a@[j] == b@[j],
        decreases n - i,
    {
        if a.get_char(i) != b.get_char(i) {
            return false;
        }
        i = i + 1;
    }
    assert(a@ =~= b@);
    true
}

fn keyword_of(w: &str) -> (r: Option<TokenType>)
    ensures
        r == keyword(w@),
{
    if same_chars(w, "display") {
        Some(TokenType::Command(Function::Display))
    } else if same_chars(w, "save") {
        Some(TokenType::Command(Function::Save))
    } else if same_chars(w, "clear") {
        Some(TokenType::Command(Function::Clear))
    } else if same_chars(w, "push") {
        Some(TokenType::Command(Function::Push))
    } else if same_chars(w, "pop") {
        Some(TokenType::Command(Function::Pop))
    } else if same_chars(w, "move") {
        Some(TokenType::Command(Function::Move))
    } else if same_chars(w, "scale") {
        Some(TokenType::Command(Function::Scale))
    } else if same_chars(w, "rotate") {
        Some(TokenType::Command(Function::Rotate))
    } else if same_chars(w, "x") || same_chars(w, "y") || same_chars(w, "z") {
        Some(TokenType::AxisOfRotation)
    } else if same_chars(w, "line") {
        Some(TokenType::Command(Function::Line))
    } else if same_chars(w, "circle") {
        Some(TokenType::Command(Function::Circle))
    } else if same_chars(w, "hermite") {
        Some(TokenType::Command(Function::Hermite))
    } else if same_chars(w, "bezier") {
        Some(TokenType::Command(Function::Bezier))
    } else if same_chars(w, "polygon") {
        Some(TokenType::Command(Function::Polygon))
    } else if same_chars(w, "box") {
        Some(TokenType::Command(Function::Box))
    } else if same_chars(w, "sphere") {
        Some(TokenType::Command(Function::Sphere))
    } else if same_chars(w, "torus") {
        Some(TokenType::Command(Function::Torus))
    } else if same_chars(w, "mesh") {
        Some(TokenType::Command(Function::Mesh))
    } else if same_chars(w, "light") {
        Some(TokenType::Command(Function::SetLight))
    } else if same_chars(w, "ambient") {
        Some(TokenType::Command(Function::SetAmbient))
    } else if same_chars(w, "constants") {
        Some(TokenType::Command(Function::SetConstants))
    } else if same_chars(w, "shading") {
        Some(TokenType::Command(Function::SetShading))
    } else {
        None
    }
}

fn number_word(w: &str) -> (r: bool)
    ensures
        r == is_number(w@),
{
    let n = w.unicode_len();
    if n == 0 {
        return false;
    }
    let first = w.get_char(0);
    if !(('0' <= first && first <= '9') || first == '-' || first == '+' || first == '.') {
        return false;
    }
    let mut digits = false;
    let mut i: usize = 0;
    while i < n
        invariant
            n == w@.len(),
            i <= n,
            forall|j: int| 0 <= j < i ==> number_char(#[trigger] w@[j]),
            digits == exists|j: int| 0 <= j < i && is_digit(#[trigger] w@[j]),
        decreases n - i,
    {
        let c = w.get_char(i);
        if '0' <= c && c <= '9' {
            digits = true;
        } else if !(c == '.' || c == '-' || c == '+' || c == 'e' || c == 'E') {
            assert(!number_char(w@[i as int]));
            return false;
        }
        i = i + 1;
    }
    digits
}

fn contains_char(w: &str, c: char) -> (r: bool)
    ensures
        r == w@.contains(c),
{
    let n = w.unicode_len();
    let mut i: usize = 0;
    while i < n
        invariant
            n == w@.len(),
            i <= n,
            forall|j: int| 0 <= j < i ==> w@[j] != c,
        decreases n - i,
    {
        if w.get_char(i) == c {
            return true;
        }
        i = i + 1;
    }
    false
}

fn classify_word(w: &str) -> (r: TokenType)
    ensures
        r == classify(w@),
{
    match keyword_of(w) {
        Some(t) => t,
        None => if number_word(w) {
            TokenType::Number
        } else if contains_char(w, '.') || contains_char(w, '/') {
            TokenType::FilePath
        } else {
            TokenType::Identifier
        },
    }
}

fn blank(c: char) -> (r: bool)
    ensures
        r == is_blank(c),
{
    c == ' ' || c == '\t' || c == '\n' || c == '\r' || c == '\x0b' || c == '\x0c'
}

/// Splits `line` into its words.
fn split_words(line: &str) -> (r: Vec<String>)
    ensures
        r@.map_values(|w: String| w@) == words(line@),
{
    let s = Ghost(line@);
    let n = line.unicode_len();
    let mut r: Vec<String> = Vec::new();
    let mut start: Option<usize> = None;
    let mut i: usize = 0;
    while i < n
        invariant
            n == s@.len(),
            s@ == line@,
            i <= n,
            match start {
                Some(b) => b < i,
                None => true,
            },
            r@.map_values(|w: String| w@) + scan_words(s@, i as int, match start {
                Some(b) => Some(b as int),
                None => None,
            }) == words(s@),
        decreases n - i,
    {
        let c = line.get_char(i);
        if blank(c) {
            if let Some(b) = start {
                let w = line.substring_char(b, i).to_string();
                let ghost before = r@.map_values(|w: String| w@);
                r.push(w);
                assert(r@.map_values(|w: String| w@) =~= before.push(s@.subrange(b as int, i as int)));
                start = None;
            }
        } else if start.is_none() {
            start = Some(i);
        }
        i = i + 1;
    }
    if let Some(b) = start {
        let w = line.substring_char(b, n).to_string();
        let ghost before = r@.map_values(|w: String| w@);
        r.push(w);
        assert(r@.map_values(|w: String| w@) =~= before.push(s@.subrange(b as int, n as int)));
    }
    assert(r@.map_values(|w: String| w@) =~= r@.map_values(|w: String| w@) + seq![]);
    r
}

/// Reads the lines of a script into tokens. Blank characters separate words;
/// lines whose first word starts with `#` or `//` are comments and give none.
pub fn tokenize(lines: &Vec<String>) -> (r: Vec<Token>)
    ensures
        r@.map_values(|t: Token| t@) == lexed(lines@.map_values(|l: String| l@), lines@.len()),
{
    let ghost ls = lines@.map_values(|l: String| l@);
    let mut r: Vec<Token> = Vec::new();
    let mut k: usize = 0;
    while k < lines.len()
        invariant
            k <= lines@.len(),
            ls == lines@.map_values(|l: String| l@),
            r@.map_values(|t: Token| t@) == lexed(ls, k as nat),
        decreases lines@.len() - k,
    {
        let ws = split_words(lines[k].as_str());
        let ghost wv = ws@.map_values(|w: String| w@);
        assert(ls[k as int] == lines@[k as int]@);
        let comment = ws.len() > 0 && {
            let first = ws[0].as_str();
            assert(first@ == wv[0]);
            let m = first.unicode_len();
            (m >= 1 && first.get_char(0) == '#') || (m >= 2 && first.get_char(0) == '/' && first.get_char(1) == '/')
        };
        let ghost before = r@.map_values(|t: Token| t@);
        if !comment {
            let mut j: usize = 0;
            while j < ws.len()
                invariant
                    j <= ws@.len(),
                    wv == ws@.map_values(|w: String| w@),
                    r@.map_values(|t: Token| t@) == before + wv.take(j as int).map_values(|w: Seq<char>| (w, classify(w))),
                decreases ws@.len() - j,
            {
                let w = ws[j].as_str();
                let token_type = classify_word(w);
                let value = w.to_string();
                assert(wv[j as int] == ws@[j as int]@);
                let ghost prev = r@;
                r.push(Token { value, token_type });
                assert(r@.map_values(|t: Token| t@) =~= prev.map_values(|t: Token| t@).push((wv[j as int], classify(wv[j as int]))));
                assert(wv.take(j as int + 1) =~= wv.take(j as int).push(wv[j as int]));
                assert(r@.map_values(|t: Token| t@) =~= before + wv.take(j as int + 1).map_values(|w: Seq<char>| (w, classify(w))));
                j = j + 1;
            }
            assert(wv.take(ws@.len() as int) =~= wv);
        } else {
            assert(line_words(ls[k as int]) =~= seq![]);
            assert(r@.map_values(|t: Token| t@) =~= before + line_words(ls[k as int]).map_values(|w: Seq<char>| (w, classify(w))));
        }
        k = k + 1;
    }
    assert(ls.len() == lines@.len());
    r
}

} // verus!
