//! The colors that the user has configured.

use crate::colorscheme::{Color, Theme};
use crate::langs::{is_whitespace, spec_is_whitespace};
use std::num::ParseIntError;
use vstd::prelude::*;
use vstd::string::{StrSliceExecFns, StringSliceAdditionalSpecFns};

verus! {

#[verifier::external_type_specification]
#[verifier::external_body]
pub struct ExParseIntError(ParseIntError);

/// The colors as the user has set them; what is not set is `None`.
pub struct UserTheme {
    pub done: Option<String>,
    pub wrong: Option<String>,
    pub todo: Option<String>,
    pub hover: Option<String>,
    pub active: Option<String>,
}

/// The value of a hexadecimal digit.
pub open spec fn hex_digit(c: char) -> Option<int> {
    if '0' <= c <= '9' {
        Some(c as int - '0' as int)
    } else if 'a' <= c <= 'f' {
        Some(c as int - 'a' as int + 10)
    } else if 'A' <= c <= 'F' {
        Some(c as int - 'A' as int + 10)
    } else {
        None
    }
}

/// The number that two characters denote in hexadecimal: two digits, or a
/// plus sign and one digit.
pub open spec fn hex_pair(text: Seq<char>) -> Option<u8> {
    if text.len() != 2 {
        None
    } else if text[0] == '+' {
        match hex_digit(text[1]) {
            Some(low) => Some(low as u8),
            None => None,
        }
    } else {
        match (hex_digit(text[0]), hex_digit(text[1])) {
            (Some(high), Some(low)) => Some((16 * high + low) as u8),
            _ => None,
        }
    }
}

/// `u8::from_str_radix` with radix sixteen, on two characters: the number
/// that they denote in hexadecimal, and an error where they denote none.
#[verifier::external_body]
fn parse_hex_pair(text: &str) -> (number: Result<u8, ParseIntError>)
    requires
        text@.len() == 2,
    ensures
        number.is_ok() == hex_pair(text@).is_some(),
        number.is_ok() ==> number.unwrap() == hex_pair(text@).unwrap(),
{
    u8::from_str_radix(text, 16)
}

/// The small letters of a text, as Unicode gives them.
pub uninterp spec fn lowercase_of(text: Seq<char>) -> Seq<char>;

/// `str::to_lowercase`: the text in small letters.
#[verifier::external_body]
fn to_lowercase(text: &str) -> (lower: String)
    ensures
        lower@ == lowercase_of(text@),
{
    text.to_lowercase()
}

/// The color that a code of a number sign and six hexadecimal digits
/// denotes. What follows the seventh character is not read.
pub open spec fn spec_hex_color(code: Seq<char>) -> Option<Color> {
    match (
        hex_pair(code.subrange(1, 3)),
        hex_pair(code.subrange(3, 5)),
        hex_pair(code.subrange(5, 7)),
    ) {
        (Some(r), Some(g), Some(b)) => Some(Color::Rgb(r, g, b)),
        _ => None,
    }
}

/// The color of a hexadecimal code, which must have seven characters at
/// least.
pub fn hex_to_color(hex_code: &str) -> (color: Result<Color, ParseIntError>)
    requires
        hex_code@.len() >= 7,
    ensures
        color.is_ok() == spec_hex_color(hex_code@).is_some(),
        color.is_ok() ==> color.unwrap() == spec_hex_color(hex_code@).unwrap(),
{
    let r: u8 = match parse_hex_pair(hex_code.substring_char(1, 3)) {
        Ok(r) => r,
        Err(error) => {
            return Err(error);
        },
    };
    let g: u8 = match parse_hex_pair(hex_code.substring_char(3, 5)) {
        Ok(g) => g,
        Err(error) => {
            return Err(error);
        },
    };
    let b: u8 = match parse_hex_pair(hex_code.substring_char(5, 7)) {
        Ok(b) => b,
        Err(error) => {
            return Err(error);
        },
    };
    Ok(Color::Rgb(r, g, b))
}

/// The color of a name in small letters.
pub open spec fn spec_named_color(name: Seq<char>) -> Option<Color> {
    if name == "black"@ {
        Some(Color::Black)
    } else if name == "red"@ {
        Some(Color::Red)
    } else if name == "green"@ {
        Some(Color::Green)
    } else if name == "yellow"@ {
        Some(Color::Yellow)
    } else if name == "blue"@ {
        Some(Color::Blue)
    } else if name == "magenta"@ {
        Some(Color::Magenta)
    } else if name == "cyan"@ {
        Some(Color::Cyan)
    } else if name == "gray"@ {
        Some(Color::Gray)
    } else if name == "darkgray"@ {
        Some(Color::DarkGray)
    } else if name == "lightred"@ {
        Some(Color::LightRed)
    } else if name == "lightgreen"@ {
        Some(Color::LightGreen)
    } else if name == "lightyellow"@ {
        Some(Color::LightYellow)
    } else if name == "lightblue"@ {
        Some(Color::LightBlue)
    } else if name == "lightmagenta"@ {
        Some(Color::LightMagenta)
    } else if name == "lightcyan"@ {
        Some(Color::LightCyan)
    } else if name == "white"@ {
        Some(Color::White)
    } else {
        None
    }
}

/// Whether a text is the given one.
fn is_text(text: &String, other: &str) -> (same: bool)
    ensures
        same == (text@ == other@),
{
    *text == other.to_owned()
}

/// The color of a name in small letters.
pub fn str_to_color(color: &str) -> (named: Option<Color>)
    ensures
        named == spec_named_color(color@),
{
    let name = color.to_owned();
    if is_text(&name, "black") {
        Some(Color::Black)
    } else if is_text(&name, "red") {
        Some(Color::Red)
    } else if is_text(&name, "green") {
        Some(Color::Green)
    } else if is_text(&name, "yellow") {
        Some(Color::Yellow)
    } else if is_text(&name, "blue") {
        Some(Color::Blue)
    } else if is_text(&name, "magenta") {
        Some(Color::Magenta)
    } else if is_text(&name, "cyan") {
        Some(Color::Cyan)
    } else if is_text(&name, "gray") {
        Some(Color::Gray)
    } else if is_text(&name, "darkgray") {
        Some(Color::DarkGray)
    } else if is_text(&name, "lightred") {
        Some(Color::LightRed)
    } else if is_text(&name, "lightgreen") {
        Some(Color::LightGreen)
    } else if is_text(&name, "lightyellow") {
        Some(Color::LightYellow)
    } else if is_text(&name, "lightblue") {
        Some(Color::LightBlue)
    } else if is_text(&name, "lightmagenta") {
        Some(Color::LightMagenta)
    } else if is_text(&name, "lightcyan") {
        Some(Color::LightCyan)
    } else if is_text(&name, "white") {
        Some(Color::White)
    } else {
        None
    }
}

/// Where the text without the white space at its start begins.
pub open spec fn trim_start(text: Seq<char>) -> int
    decreases text.len(),
{
    if text.len() > 0 && spec_is_whitespace(text[0]) {
        1 + trim_start(text.drop_first())
    } else {
        0
    }
}

/// Where the text without the white space at its end ends.
pub open spec fn trim_end(text: Seq<char>) -> int
    decreases text.len(),
{
    if text.len() > 0 && spec_is_whitespace(text.last()) {
        trim_end(text.drop_last())
    } else {
        text.len() as int
    }
}

/// A text without the white space at its start and at its end.
pub open spec fn spec_trim(text: Seq<char>) -> Seq<char> {
    if trim_start(text) >= trim_end(text) {
        Seq::empty()
    } else {
        text.subrange(trim_start(text), trim_end(text))
    }
}

/// The start of the trimmed text lies in the text, and the characters before
/// it are white space and the one at it is not.
pub proof fn lemma_trim_start(text: Seq<char>)
    ensures
        0 <= trim_start(text) <= text.len(),
        forall|i: int| 0 <= i < trim_start(text) ==> spec_is_whitespace(text[i]),
        trim_start(text) < text.len() ==> !spec_is_whitespace(text[trim_start(text)]),
    decreases text.len(),
{
    if text.len() > 0 && spec_is_whitespace(text[0]) {
        let rest = text.drop_first();
        lemma_trim_start(rest);
        assert forall|i: int| 0 <= i < trim_start(text) implies spec_is_whitespace(text[i]) by {
            if i > 0 {
                assert(text[i] == rest[i - 1]);
            }
        }
        if trim_start(text) < text.len() {
            assert(text[trim_start(text)] == rest[trim_start(rest)]);
        }
    }
}

/// The end of the trimmed text lies in the text, and the characters from it
/// on are white space and the one before it is not.
pub proof fn lemma_trim_end(text: Seq<char>)
    ensures
        0 <= trim_end(text) <= text.len(),
        forall|i: int| trim_end(text) <= i < text.len() ==> spec_is_whitespace(text[i]),
        trim_end(text) > 0 ==> !spec_is_whitespace(text[trim_end(text) - 1]),
    decreases text.len(),
{
    if text.len() > 0 && spec_is_whitespace(text.last()) {
        let rest = text.drop_last();
        lemma_trim_end(rest);
        assert forall|i: int| trim_end(text) <= i < text.len() implies spec_is_whitespace(
            text[i],
        ) by {
            if i < rest.len() {
                assert(text[i] == rest[i]);
            }
        }
        if trim_end(text) > 0 {
            assert(text[trim_end(text) - 1] == rest[trim_end(rest) - 1]);
        }
    }
}

/// A text without the white space at its start and at its end.
pub fn trim(text: &str) -> (trimmed: &str)
    ensures
        trimmed@ == spec_trim(text@),
{
    let length = text.unicode_len();
    let mut start: usize = 0;
    let mut end: usize = 0;
    let mut seen_start = false;
    let mut position: usize = 0;
    for c in it: text.chars()
        invariant
            it.seq() == text@,
            length == text@.len(),
            position == it.index(),
            !seen_start ==> start == it.index() && end == 0 && forall|i: int|
                0 <= i < it.index() ==> spec_is_whitespace(text@[i]),
            seen_start ==> start < it.index() && !spec_is_whitespace(text@[start as int])
                && forall|i: int| 0 <= i < start ==> spec_is_whitespace(text@[i]),
            seen_start ==> start < end <= it.index() && !spec_is_whitespace(text@[end - 1])
                && forall|i: int| end <= i < it.index() ==> spec_is_whitespace(text@[i]),
    {
        assert(c == text@[it.index() as int]);
        if !is_whitespace(c) {
            if !seen_start {
                seen_start = true;
            }
            end = position + 1;
        } else if !seen_start {
            start = position + 1;
        }
        position += 1;
    }
    proof {
        lemma_trim_bounds(text@, start as int, end as int, seen_start);
    }
    if !seen_start {
        text.substring_char(0, 0)
    } else {
        text.substring_char(start, end)
    }
}

/// The bounds that a scan of the text finds are the bounds of the trimmed
/// text.
pub proof fn lemma_trim_bounds(text: Seq<char>, start: int, end: int, seen: bool)
    requires
        !seen ==> forall|i: int| 0 <= i < text.len() ==> spec_is_whitespace(text[i]),
        seen ==> 0 <= start < end <= text.len() && !spec_is_whitespace(text[start])
            && !spec_is_whitespace(text[end - 1]) && (forall|i: int|
            0 <= i < start ==> spec_is_whitespace(text[i])) && (forall|i: int|
            end <= i < text.len() ==> spec_is_whitespace(text[i])),
    ensures
        seen ==> trim_start(text) == start && trim_end(text) == end && spec_trim(text)
            == text.subrange(start, end),
        !seen ==> spec_trim(text) == Seq::<char>::empty(),
{
    lemma_trim_start(text);
    lemma_trim_end(text);
    if seen {
        if trim_start(text) < start {
        } else if trim_start(text) > start {
        }
        if trim_end(text) > end {
        } else if trim_end(text) < end {
        }
    } else {
        assert(text.subrange(0, 0) =~= Seq::<char>::empty());
        if trim_start(text) < trim_end(text) {
            assert(spec_is_whitespace(text[trim_start(text)]));
        }
    }
}

/// The color that the user has written: a code of a number sign and six
/// hexadecimal digits, or one of sixteen names in letters of any size; white
/// space around it is passed over. A code counts as one only if the text as
/// written takes seven bytes at least.
pub open spec fn spec_user_color(user_color: Seq<char>) -> Option<Color> {
    let prepared = spec_trim(user_color);
    if prepared.len() == 0 {
        None
    } else if prepared[0] == '#' && vstd::utf8::encode_utf8(user_color).len() >= 7 {
        if prepared.len() >= 7 {
            spec_hex_color(prepared)
        } else {
            None
        }
    } else {
        spec_named_color(lowercase_of(prepared))
    }
}

/// The color that the user has written, where it denotes one.
pub fn parse_user_defined_colors(user_color: &str) -> (color: Option<Color>)
    ensures
        color == spec_user_color(user_color@),
{
    let prepared_user_color = trim(user_color);
    if prepared_user_color.unicode_len() == 0 {
        return None;
    }
    let c = prepared_user_color.get_char(0);
    assert(user_color.spec_bytes() == vstd::utf8::encode_utf8(user_color@));
    if c == '#' && user_color.as_bytes().len() >= 7 {
        if prepared_user_color.unicode_len() < 7 {
            return None;
        }
        match hex_to_color(prepared_user_color) {
            Ok(color) => Some(color),
            Err(_) => None,
        }
    } else {
        str_to_color(to_lowercase(prepared_user_color).as_str())
    }
}

/// The color after the user has had a say: the color that the user has
/// written where that denotes one, and else the color as it was.
pub open spec fn spec_user_defined(color: Color, user_defined_color: Option<String>) -> Color {
    match user_defined_color {
        Some(text) => match spec_user_color(text@) {
            Some(chosen) => chosen,
            None => color,
        },
        None => color,
    }
}

fn change_color_to_user_defined(final_color: &mut Color, user_defined_color: &Option<String>)
    ensures
        *final(final_color) == spec_user_defined(*old(final_color), *user_defined_color),
{
    if let Some(clr_str) = user_defined_color {
        if let Some(clr) = parse_user_defined_colors(clr_str.as_str()) {
            *final_color = clr;
        }
    }
}

impl UserTheme {
    /// The theme that comes of what the user has set: the default, with
    /// each color replaced that the user has written so that it denotes one.
    pub open spec fn spec_theme(&self) -> Theme {
        Theme {
            done: spec_user_defined(Color::White, self.done),
            wrong: spec_user_defined(Color::Red, self.wrong),
            todo: spec_user_defined(Color::Gray, self.todo),
            hover: spec_user_defined(Color::Magenta, self.hover),
            active: spec_user_defined(Color::Green, self.active),
        }
    }

    pub fn to_theme(&self) -> (theme: Theme)
        ensures
            theme == self.spec_theme(),
    {
        let mut base = Theme::default();
        change_color_to_user_defined(&mut base.done, &self.done);
        change_color_to_user_defined(&mut base.wrong, &self.wrong);
        change_color_to_user_defined(&mut base.todo, &self.todo);
        change_color_to_user_defined(&mut base.active, &self.active);
        change_color_to_user_defined(&mut base.hover, &self.hover);
        base
    }
}

} // verus!
