//! The color theme table: a fixed palette of literal hex colors, each mapped
//! to the semantic theme token that stands for it in published graphics.

use vstd::prelude::*;
use vstd::string::*;

verus! {

/// A semantic theme token. Every color family of the palette has one.
#[derive(Debug, Clone, Copy, PartialEq, Eq, Structural)]
pub enum ColorToken {
    Background,
    Gray,
    Text,
    Brown,
    Cyan,
    Blue,
    Purple,
    Magenta,
    Pink,
    Green,
    Teal,
    DarkOrange,
    BrightOrange,
    Red,
}

/// The family that a literal color belongs to; `None` for a value outside
/// the palette. The two literals of a family are its dark and light shade.
pub open spec fn color_family(literal: Seq<char>) -> Option<ColorToken> {
    if literal == "#ffffff"@ {
        Some(ColorToken::Background)
    } else if literal == "#868e96"@ || literal == "#e9ecef"@ {
        Some(ColorToken::Gray)
    } else if literal == "#1e1e1e"@ {
        Some(ColorToken::Text)
    } else if literal == "#846358"@ || literal == "#eaddd7"@ {
        Some(ColorToken::Brown)
    } else if literal == "#0c8599"@ || literal == "#99e9f2"@ {
        Some(ColorToken::Cyan)
    } else if literal == "#1971c2"@ || literal == "#a5d8ff"@ {
        Some(ColorToken::Blue)
    } else if literal == "#6741d9"@ || literal == "#d0bfff"@ {
        Some(ColorToken::Purple)
    } else if literal == "#9c36b5"@ || literal == "#eebefa"@ {
        Some(ColorToken::Magenta)
    } else if literal == "#c2255c"@ || literal == "#fcc2d7"@ {
        Some(ColorToken::Pink)
    } else if literal == "#2f9e44"@ || literal == "#b2f2bb"@ {
        Some(ColorToken::Green)
    } else if literal == "#099268"@ || literal == "#96f2d7"@ {
        Some(ColorToken::Teal)
    } else if literal == "#f08c00"@ || literal == "#ffec99"@ {
        Some(ColorToken::DarkOrange)
    } else if literal == "#e8590c"@ || literal == "#ffd8a8"@ {
        Some(ColorToken::BrightOrange)
    } else if literal == "#e03131"@ || literal == "#ffc9c9"@ {
        Some(ColorToken::Red)
    } else {
        None
    }
}

/// The text that stands for a token in published markup.
pub open spec fn token_text(token: ColorToken) -> Seq<char> {
    match token {
        ColorToken::Background => "var(--color-base)"@,
        ColorToken::Gray => "var(--color-subtext)"@,
        ColorToken::Text => "var(--color-text)"@,
        ColorToken::Brown => "var(--color-maroon)"@,
        ColorToken::Cyan => "var(--color-sapphire)"@,
        ColorToken::Blue => "var(--color-blue)"@,
        ColorToken::Purple => "var(--color-lavander)"@,
        ColorToken::Magenta => "var(--color-mavue)"@,
        ColorToken::Pink => "var(--color-pink)"@,
        ColorToken::Green => "var(--color-green)"@,
        ColorToken::Teal => "var(--color-teal)"@,
        ColorToken::DarkOrange => "var(--color-yellow)"@,
        ColorToken::BrightOrange => "var(--color-peach)"@,
        ColorToken::Red => "var(--color-red)"@,
    }
}

/// What a color value becomes: the token of its family, or the value itself
/// where it is outside the palette.
pub open spec fn themed(literal: Seq<char>) -> Seq<char> {
    match color_family(literal) {
        Some(token) => token_text(token),
        None => literal,
    }
}

impl ColorToken {
    /// The text that stands for this token in published markup.
    pub fn css(self) -> (r: &'static str)
        ensures
            r@ == token_text(self),
    {
        match self {
            ColorToken::Background => "var(--color-base)",
            ColorToken::Gray => "var(--color-subtext)",
            ColorToken::Text => "var(--color-text)",
            ColorToken::Brown => "var(--color-maroon)",
            ColorToken::Cyan => "var(--color-sapphire)",
            ColorToken::Blue => "var(--color-blue)",
            ColorToken::Purple => "var(--color-lavander)",
            ColorToken::Magenta => "var(--color-mavue)",
            ColorToken::Pink => "var(--color-pink)",
            ColorToken::Green => "var(--color-green)",
            ColorToken::Teal => "var(--color-teal)",
            ColorToken::DarkOrange => "var(--color-yellow)",
            ColorToken::BrightOrange => "var(--color-peach)",
            ColorToken::Red => "var(--color-red)",
        }
    }
}

/// Whether `value` is `literal`.
fn is(value: &String, literal: &str) -> (r: bool)
    ensures
        r == (value@ == literal@),
{
    *value == literal.to_owned()
}

/// The family of a literal color, `None` for a value outside the palette.
pub fn lookup_color(literal: &str) -> (r: Option<ColorToken>)
    ensures
        r == color_family(literal@),
{
    let v = literal.to_owned();
    if is(&v, "#ffffff") {
        Some(ColorToken::Background)
    } else if is(&v, "#868e96") || is(&v, "#e9ecef") {
        Some(ColorToken::Gray)
    } else if is(&v, "#1e1e1e") {
        Some(ColorToken::Text)
    } else if is(&v, "#846358") || is(&v, "#eaddd7") {
        Some(ColorToken::Brown)
    } else if is(&v, "#0c8599") || is(&v, "#99e9f2") {
        Some(ColorToken::Cyan)
    } else if is(&v, "#1971c2") || is(&v, "#a5d8ff") {
        Some(ColorToken::Blue)
    } else if is(&v, "#6741d9") || is(&v, "#d0bfff") {
        Some(ColorToken::Purple)
    } else if is(&v, "#9c36b5") || is(&v, "#eebefa") {
        Some(ColorToken::Magenta)
    } else if is(&v, "#c2255c") || is(&v, "#fcc2d7") {
        Some(ColorToken::Pink)
    } else if is(&v, "#2f9e44") || is(&v, "#b2f2bb") {
        Some(ColorToken::Green)
    } else if is(&v, "#099268") || is(&v, "#96f2d7") {
        Some(ColorToken::Teal)
    } else if is(&v, "#f08c00") || is(&v, "#ffec99") {
        Some(ColorToken::DarkOrange)
    } else if is(&v, "#e8590c") || is(&v, "#ffd8a8") {
        Some(ColorToken::BrightOrange)
    } else if is(&v, "#e03131") || is(&v, "#ffc9c9") {
        Some(ColorToken::Red)
    } else {
        None
    }
}

/// The theme token for a literal color of the palette. A value outside the
/// palette comes back unchanged.
pub fn replace_color(excalidraw_color: &str) -> (r: String)
    ensures
        r@ == themed(excalidraw_color@),
        color_family(excalidraw_color@).is_none() ==> r@ == excalidraw_color@,
{
    match lookup_color(excalidraw_color) {
        Some(token) => token.css().to_owned(),
        None => excalidraw_color.to_owned(),
    }
}

/// The six characters that follow the first one of a color value: enough to
/// tell any two literals of the palette apart.
spec fn digits(literal: Seq<char>) -> (char, char, char, char, char, char) {
    (literal[1], literal[2], literal[3], literal[4], literal[5], literal[6])
}

/// The palette, literal by literal: each of its values has the family and the
/// token stated here, whatever the order in which the table is consulted.
pub proof fn lemma_palette()
    ensures
        themed("#ffffff"@) == "var(--color-base)"@,
        themed("#868e96"@) == "var(--color-subtext)"@,
        themed("#e9ecef"@) == "var(--color-subtext)"@,
        themed("#1e1e1e"@) == "var(--color-text)"@,
        themed("#846358"@) == "var(--color-maroon)"@,
        themed("#eaddd7"@) == "var(--color-maroon)"@,
        themed("#0c8599"@) == "var(--color-sapphire)"@,
        themed("#99e9f2"@) == "var(--color-sapphire)"@,
        themed("#1971c2"@) == "var(--color-blue)"@,
        themed("#a5d8ff"@) == "var(--color-blue)"@,
        themed("#6741d9"@) == "var(--color-lavander)"@,
        themed("#d0bfff"@) == "var(--color-lavander)"@,
        themed("#9c36b5"@) == "var(--color-mavue)"@,
        themed("#eebefa"@) == "var(--color-mavue)"@,
        themed("#c2255c"@) == "var(--color-pink)"@,
        themed("#fcc2d7"@) == "var(--color-pink)"@,
        themed("#2f9e44"@) == "var(--color-green)"@,
        themed("#b2f2bb"@) == "var(--color-green)"@,
        themed("#099268"@) == "var(--color-teal)"@,
        themed("#96f2d7"@) == "var(--color-teal)"@,
        themed("#f08c00"@) == "var(--color-yellow)"@,
        themed("#ffec99"@) == "var(--color-yellow)"@,
        themed("#e8590c"@) == "var(--color-peach)"@,
        themed("#ffd8a8"@) == "var(--color-peach)"@,
        themed("#e03131"@) == "var(--color-red)"@,
        themed("#ffc9c9"@) == "var(--color-red)"@,
{
    assert(digits("#ffffff"@) == ('f', 'f', 'f', 'f', 'f', 'f')) by {
        reveal_strlit("#ffffff");
    }
    assert(digits("#868e96"@) == ('8', '6', '8', 'e', '9', '6')) by {
        reveal_strlit("#868e96");
    }
    assert(digits("#e9ecef"@) == ('e', '9', 'e', 'c', 'e', 'f')) by {
        reveal_strlit("#e9ecef");
    }
    assert(digits("#1e1e1e"@) == ('1', 'e', '1', 'e', '1', 'e')) by {
        reveal_strlit("#1e1e1e");
    }
    assert(digits("#846358"@) == ('8', '4', '6', '3', '5', '8')) by {
        reveal_strlit("#846358");
    }
    assert(digits("#eaddd7"@) == ('e', 'a', 'd', 'd', 'd', '7')) by {
        reveal_strlit("#eaddd7");
    }
    assert(digits("#0c8599"@) == ('0', 'c', '8', '5', '9', '9')) by {
        reveal_strlit("#0c8599");
    }
    assert(digits("#99e9f2"@) == ('9', '9', 'e', '9', 'f', '2')) by {
        reveal_strlit("#99e9f2");
    }
    assert(digits("#1971c2"@) == ('1', '9', '7', '1', 'c', '2')) by {
        reveal_strlit("#1971c2");
    }
    assert(digits("#a5d8ff"@) == ('a', '5', 'd', '8', 'f', 'f')) by {
        reveal_strlit("#a5d8ff");
    }
    assert(digits("#6741d9"@) == ('6', '7', '4', '1', 'd', '9')) by {
        reveal_strlit("#6741d9");
    }
    assert(digits("#d0bfff"@) == ('d', '0', 'b', 'f', 'f', 'f')) by {
        reveal_strlit("#d0bfff");
    }
    assert(digits("#9c36b5"@) == ('9', 'c', '3', '6', 'b', '5')) by {
        reveal_strlit("#9c36b5");
    }
    assert(digits("#eebefa"@) == ('e', 'e', 'b', 'e', 'f', 'a')) by {
        reveal_strlit("#eebefa");
    }
    assert(digits("#c2255c"@) == ('c', '2', '2', '5', '5', 'c')) by {
        reveal_strlit("#c2255c");
    }
    assert(digits("#fcc2d7"@) == ('f', 'c', 'c', '2', 'd', '7')) by {
        reveal_strlit("#fcc2d7");
    }
    assert(digits("#2f9e44"@) == ('2', 'f', '9', 'e', '4', '4')) by {
        reveal_strlit("#2f9e44");
    }
    assert(digits("#b2f2bb"@) == ('b', '2', 'f', '2', 'b', 'b')) by {
        reveal_strlit("#b2f2bb");
    }
    assert(digits("#099268"@) == ('0', '9', '9', '2', '6', '8')) by {
        reveal_strlit("#099268");
    }
    assert(digits("#96f2d7"@) == ('9', '6', 'f', '2', 'd', '7')) by {
        reveal_strlit("#96f2d7");
    }
    assert(digits("#f08c00"@) == ('f', '0', '8', 'c', '0', '0')) by {
        reveal_strlit("#f08c00");
    }
    assert(digits("#ffec99"@) == ('f', 'f', 'e', 'c', '9', '9')) by {
        reveal_strlit("#ffec99");
    }
    assert(digits("#e8590c"@) == ('e', '8', '5', '9', '0', 'c')) by {
        reveal_strlit("#e8590c");
    }
    assert(digits("#ffd8a8"@) == ('f', 'f', 'd', '8', 'a', '8')) by {
        reveal_strlit("#ffd8a8");
    }
    assert(digits("#e03131"@) == ('e', '0', '3', '1', '3', '1')) by {
        reveal_strlit("#e03131");
    }
    assert(digits("#ffc9c9"@) == ('f', 'f', 'c', '9', 'c', '9')) by {
        reveal_strlit("#ffc9c9");
    }
}

/// A value outside the palette is left as it is.
pub proof fn lemma_unknown_color_kept(literal: Seq<char>)
    requires
        color_family(literal).is_none(),
    ensures
        themed(literal) == literal,
{
}

} // verus!
