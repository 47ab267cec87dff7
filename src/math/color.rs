use vstd::prelude::*;

verus! {

/// Represents a color with the RGB color model.
#[derive(Copy, Clone, Debug, PartialEq, Eq, Structural)]
pub struct Color {
    r: u8,
    g: u8,
    b: u8,
}

/// Why a text is no hex triplet like `#FFA500`.
#[derive(Copy, Clone, Debug, PartialEq, Eq, Structural)]
pub enum ColorError {
    /// The text does not start with `#`.
    MissingHash,
    /// The text is not 7 characters long.
    WrongLength,
    /// The 2 characters of red are no hexadecimal number.
    InvalidRed,
    /// The 2 characters of green are no hexadecimal number.
    InvalidGreen,
    /// The 2 characters of blue are no hexadecimal number.
    InvalidBlue,
}

impl Color {
    /// The red component.
    pub closed spec fn spec_r(self) -> u8 {
        self.r
    }

    /// The green component.
    pub closed spec fn spec_g(self) -> u8 {
        self.g
    }

    /// The blue component.
    pub closed spec fn spec_b(self) -> u8 {
        self.b
    }

    /// The color with the given components.
    pub closed spec fn spec_rgb(r: u8, g: u8, b: u8) -> Color {
        Color { r, g, b }
    }

    /// A color is its 3 components.
    pub broadcast proof fn lemma_rgb(r: u8, g: u8, b: u8)
        ensures
            #[trigger] Color::spec_rgb(r, g, b).spec_r() == r,
            Color::spec_rgb(r, g, b).spec_g() == g,
            Color::spec_rgb(r, g, b).spec_b() == b,
    {
    }

    /// Returns a new color.
    pub fn from_rgb(r: u8, g: u8, b: u8) -> (c: Color)
        ensures
            c == Color::spec_rgb(r, g, b),
    {
        Color { r, g, b }
    }

    /// Returns a new gray color.
    pub fn gray(value: u8) -> (c: Color)
        ensures
            c == Color::spec_rgb(value, value, value),
    {
        Color { r: value, g: value, b: value }
    }

    /// Converts a hex triplet like `#FFA500` to a color, if possible. Whitespace
    /// around it is ignored & the case of the letters does not matter.
    pub fn from_hex(hex_code: &str) -> (r: Result<Color, ColorError>)
        ensures
            r == parse_hex_triplet(trimmed(hex_code@)),
    {
        let trimmed_code = trim(hex_code);
        Color::from_trimmed_hex(trimmed_code)
    }

    /// Converts a hex triplet like `#FFA500` without whitespace around it to a
    /// color, if possible.
    pub fn from_trimmed_hex(hex_code: &str) -> (r: Result<Color, ColorError>)
        ensures
            r == parse_hex_triplet(hex_code@),
    {
        let len = hex_code.unicode_len();
        if len == 0 || hex_code.get_char(0) != '#' {
            return Err(ColorError::MissingHash);
        }
        if len != 7 {
            return Err(ColorError::WrongLength);
        }
        let r = match parse_hex_pair(hex_code.get_char(1), hex_code.get_char(2)) {
            Some(v) => v,
            None => {
                return Err(ColorError::InvalidRed);
            },
        };
        let g = match parse_hex_pair(hex_code.get_char(3), hex_code.get_char(4)) {
            Some(v) => v,
            None => {
                return Err(ColorError::InvalidGreen);
            },
        };
        let b = match parse_hex_pair(hex_code.get_char(5), hex_code.get_char(6)) {
            Some(v) => v,
            None => {
                return Err(ColorError::InvalidBlue);
            },
        };
        Ok(Color::from_rgb(r, g, b))
    }

    /// Returns the hex triplet representing the color, with upper case letters.
    pub fn to_hex(&self) -> (s: String)
        ensures
            s@ == hex_triplet(*self),
    {
        let mut s = String::from_str("#");
        proof {
            reveal_strlit("#");
        }
        append_hex_byte(&mut s, self.r);
        append_hex_byte(&mut s, self.g);
        append_hex_byte(&mut s, self.b);
        assert(s@ =~= hex_triplet(*self));
        s
    }

    /// Returns black.
    pub fn black() -> (c: Color)
        ensures
            c == Color::spec_rgb(0, 0, 0),
    {
        Color { r: 0, g: 0, b: 0 }
    }

    /// Returns blue.
    pub fn blue() -> (c: Color)
        ensures
            c == Color::spec_rgb(0, 0, 255),
    {
        Color { r: 0, g: 0, b: 255 }
    }

    /// Returns cyan.
    pub fn cyan() -> (c: Color)
        ensures
            c == Color::spec_rgb(0, 255, 255),
    {
        Color { r: 0, g: 255, b: 255 }
    }

    /// Returns green.
    pub fn green() -> (c: Color)
        ensures
            c == Color::spec_rgb(0, 255, 0),
    {
        Color { r: 0, g: 255, b: 0 }
    }

    /// Returns magenta.
    pub fn magenta() -> (c: Color)
        ensures
            c == Color::spec_rgb(255, 0, 255),
    {
        Color { r: 255, g: 0, b: 255 }
    }

    /// Returns orange.
    pub fn orange() -> (c: Color)
        ensures
            c == Color::spec_rgb(255, 165, 0),
    {
        Color { r: 255, g: 165, b: 0 }
    }

    /// Returns red.
    pub fn red() -> (c: Color)
        ensures
            c == Color::spec_rgb(255, 0, 0),
    {
        Color { r: 255, g: 0, b: 0 }
    }

    /// Returns pink.
    pub fn pink() -> (c: Color)
        ensures
            c == Color::spec_rgb(255, 0, 128),
    {
        Color { r: 255, g: 0, b: 128 }
    }

    /// Returns white.
    pub fn white() -> (c: Color)
        ensures
            c == Color::spec_rgb(255, 255, 255),
    {
        Color { r: 255, g: 255, b: 255 }
    }

    /// Returns yellow.
    pub fn yellow() -> (c: Color)
        ensures
            c == Color::spec_rgb(255, 255, 0),
    {
        Color { r: 255, g: 255, b: 0 }
    }

    /// Returns the red component.
    pub fn r(&self) -> (v: u8)
        ensures
            v == self.spec_r(),
    {
        self.r
    }

    /// Returns the green component.
    pub fn g(&self) -> (v: u8)
        ensures
            v == self.spec_g(),
    {
        self.g
    }

    /// Returns the blue component.
    pub fn b(&self) -> (v: u8)
        ensures
            v == self.spec_b(),
    {
        self.b
    }
}

impl Default for Color {
    /// Returns pink, the color that stands out.
    fn default() -> (c: Color)
        ensures
            c == Color::spec_rgb(255, 0, 128),
    {
        Color::pink()
    }
}

/// The 16 hexadecimal digits, with upper case letters.
pub open spec fn hex_digits() -> Seq<char> {
    seq!['0', '1', '2', '3', '4', '5', '6', '7', '8', '9', 'A', 'B', 'C', 'D', 'E', 'F']
}

/// The 2 hexadecimal digits of a byte.
pub open spec fn hex_byte(v: u8) -> Seq<char> {
    seq![hex_digits()[v as int / 16], hex_digits()[v as int % 16]]
}

/// The hex triplet of a color, like `#FFA500`.
pub open spec fn hex_triplet(c: Color) -> Seq<char> {
    seq!['#'] + hex_byte(c.spec_r()) + hex_byte(c.spec_g()) + hex_byte(c.spec_b())
}

/// The value of a hexadecimal digit of either case.
pub open spec fn hex_value(c: char) -> Option<u8> {
    if '0' <= c && c <= '9' {
        Some((c as u32 - '0' as u32) as u8)
    } else if 'a' <= c && c <= 'f' {
        Some((c as u32 - 'a' as u32 + 10) as u8)
    } else if 'A' <= c && c <= 'F' {
        Some((c as u32 - 'A' as u32 + 10) as u8)
    } else {
        None
    }
}

/// The value of 2 characters read as an unsigned hexadecimal number: either 2
/// digits, or a `+` sign followed by 1 digit.
pub open spec fn hex_pair(c0: char, c1: char) -> Option<u8> {
    if c0 == '+' {
        hex_value(c1)
    } else {
        match (hex_value(c0), hex_value(c1)) {
            (Some(high), Some(low)) => Some((high * 16 + low) as u8),
            _ => None,
        }
    }
}

/// Reads a hex triplet: `#` followed by 2 characters each for red, green &
/// blue.
pub open spec fn parse_hex_triplet(s: Seq<char>) -> Result<Color, ColorError> {
    if s.len() == 0 || s[0] != '#' {
        Err(ColorError::MissingHash)
    } else if s.len() != 7 {
        Err(ColorError::WrongLength)
    } else {
        match (hex_pair(s[1], s[2]), hex_pair(s[3], s[4]), hex_pair(s[5], s[6])) {
            (None, _, _) => Err(ColorError::InvalidRed),
            (Some(_), None, _) => Err(ColorError::InvalidGreen),
            (Some(_), Some(_), None) => Err(ColorError::InvalidBlue),
            (Some(r), Some(g), Some(b)) => Ok(Color::spec_rgb(r, g, b)),
        }
    }
}

/// What `str::trim` leaves of a text.
pub uninterp spec fn trimmed(s: Seq<char>) -> Seq<char>;

/// Relies on `str::trim`: it removes the leading & trailing whitespace, so its
/// result depends on the characters alone.
#[verifier::external_body]
fn trim<'a>(s: &'a str) -> (r: &'a str)
    ensures
        r@ == trimmed(s@),
{
    s.trim()
}

fn hex_digit_value(c: char) -> (r: Option<u8>)
    ensures
        r == hex_value(c),
{
    if '0' <= c && c <= '9' {
        Some((c as u32 - '0' as u32) as u8)
    } else if 'a' <= c && c <= 'f' {
        Some((c as u32 - 'a' as u32 + 10) as u8)
    } else if 'A' <= c && c <= 'F' {
        Some((c as u32 - 'A' as u32 + 10) as u8)
    } else {
        None
    }
}

fn parse_hex_pair(c0: char, c1: char) -> (r: Option<u8>)
    ensures
        r == hex_pair(c0, c1),
{
    if c0 == '+' {
        hex_digit_value(c1)
    } else {
        match (hex_digit_value(c0), hex_digit_value(c1)) {
            (Some(high), Some(low)) => Some(high * 16 + low),
            _ => None,
        }
    }
}

/// Appends the 2 hexadecimal digits of a byte.
fn append_hex_byte(s: &mut String, v: u8)
    ensures
        final(s)@ == old(s)@ + hex_byte(v),
{
    let digits = "0123456789ABCDEF";
    proof {
        reveal_strlit("0123456789ABCDEF");
        assert(digits@ =~= hex_digits());
    }
    let high = (v / 16) as usize;
    let low = (v % 16) as usize;
    s.append(digits.substring_char(high, high + 1));
    s.append(digits.substring_char(low, low + 1));
    assert(final(s)@ =~= old(s)@ + hex_byte(v));
}

} // verus!
