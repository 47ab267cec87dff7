use crate::math::color::{hex_triplet, Color};
use crate::math::point2d::Point2d;
use crate::math::size2d::Size2d;
use crate::port::renderer::{Primitive, Renderer};
use vstd::prelude::*;

verus! {

/// The decimal digit of a value below 10.
pub open spec fn digit(d: int) -> char {
    seq!['0', '1', '2', '3', '4', '5', '6', '7', '8', '9'][d]
}

/// The decimal digits of a natural number, without leading zeros.
pub open spec fn digits(n: nat) -> Seq<char>
    decreases n,
{
    if n < 10 {
        seq![digit(n as int)]
    } else {
        digits(n / 10) + seq![digit((n % 10) as int)]
    }
}

/// An integer written in decimal, with a leading `-` if it is negative.
pub open spec fn decimal(n: int) -> Seq<char> {
    if n < 0 {
        seq!['-'] + digits((-n) as nat)
    } else {
        digits(n as nat)
    }
}

/// The first line of an SVG of a size.
pub open spec fn header_line(size: Size2d) -> Seq<char> {
    "<svg viewBox=\"0 0 "@ + decimal(size.w() as int) + " "@ + decimal(size.h() as int)
        + "\" xmlns=\"http://www.w3.org/2000/svg\">"@
}

/// The last line of an SVG.
pub open spec fn footer_line() -> Seq<char> {
    "</svg>"@
}

/// The line of an SVG that draws a primitive.
pub open spec fn primitive_line(p: Primitive) -> Seq<char> {
    match p {
        Primitive::Rectangle { x, y, size, color } => "  <rect x=\""@ + decimal(x as int)
            + "\" y=\""@ + decimal(y as int) + "\" width=\""@ + decimal(size.w() as int)
            + "\" height=\""@ + decimal(size.h() as int) + "\" fill=\""@ + hex_triplet(color)
            + "\"/>"@,
        Primitive::Polygon { p0, p1, p2, p3, color } => "  <polygon points=\""@ + decimal(
            p0.x as int,
        ) + ","@ + decimal(p0.y as int) + " "@ + decimal(p1.x as int) + ","@ + decimal(
            p1.y as int,
        ) + " "@ + decimal(p2.x as int) + ","@ + decimal(p2.y as int) + " "@ + decimal(
            p3.x as int,
        ) + ","@ + decimal(p3.y as int) + "\" fill=\""@ + hex_triplet(color) + "\"/>"@,
        Primitive::Line { p0, p1, color } => "  <path d=\"M"@ + decimal(p0.x as int) + " "@
            + decimal(p0.y as int) + " "@ + decimal(p1.x as int) + " "@ + decimal(p1.y as int)
            + "\" stroke=\""@ + hex_triplet(color) + "\" stroke-dasharray=\"1,4\"/>"@,
    }
}

/// Lines joined by line breaks.
pub open spec fn joined(lines: Seq<Seq<char>>) -> Seq<char>
    decreases lines.len(),
{
    if lines.len() == 0 {
        seq![]
    } else if lines.len() == 1 {
        lines[0]
    } else {
        joined(lines.drop_last()) + seq!['\n'] + lines.last()
    }
}

/// The texts of lines.
pub open spec fn texts(lines: Seq<String>) -> Seq<Seq<char>> {
    lines.map_values(|l: String| l@)
}

/// A valid SVG.
pub struct Svg {
    lines: Vec<String>,
}

impl Svg {
    /// The lines of the SVG.
    pub closed spec fn spec_lines(&self) -> Seq<Seq<char>> {
        texts(self.lines@)
    }

    /// Returns the SVG as text, its lines joined by line breaks.
    pub fn export(&self) -> (r: String)
        ensures
            r@ == joined(self.spec_lines()),
    {
        let mut r = String::new();
        let mut i: usize = 0;
        while i < self.lines.len()
            invariant
                i <= self.lines@.len(),
                r@ == joined(texts(self.lines@.subrange(0, i as int))),
            decreases self.lines@.len() - i,
        {
            proof {
                let before = texts(self.lines@.subrange(0, i as int));
                let after = texts(self.lines@.subrange(0, i + 1));
                assert(after.drop_last() =~= before);
                assert(after.last() == self.lines@[i as int]@);
            }
            if i > 0 {
                r.append("\n");
                proof {
                    reveal_strlit("\n");
                }
            }
            r.append(self.lines[i].as_str());
            i = i + 1;
        }
        proof {
            assert(self.lines@.subrange(0, self.lines@.len() as int) =~= self.lines@);
        }
        r
    }

    /// Returns the lines of the SVG.
    pub fn get_lines(&self) -> (r: &Vec<String>)
        ensures
            texts(r@) == self.spec_lines(),
    {
        &self.lines
    }
}

/// Builds a valid SVG: a renderer that writes one line per primitive.
pub struct SvgBuilder {
    lines: Vec<String>,
    drawn: Ghost<Seq<Primitive>>,
}

impl SvgBuilder {
    /// The lines written so far.
    pub closed spec fn spec_lines(&self) -> Seq<Seq<char>> {
        texts(self.lines@)
    }

    /// Starts an SVG of the size.
    pub fn new(size: Size2d) -> (r: SvgBuilder)
        ensures
            r.spec_lines() == seq![header_line(size)],
            r.drawn() == Seq::<Primitive>::empty(),
    {
        let mut line = String::from_str("<svg viewBox=\"0 0 ");
        append_decimal(&mut line, size.width() as i64);
        line.append(" ");
        append_decimal(&mut line, size.height() as i64);
        line.append("\" xmlns=\"http://www.w3.org/2000/svg\">");
        let mut lines: Vec<String> = Vec::new();
        lines.push(line);
        let r = SvgBuilder { lines, drawn: Ghost(Seq::empty()) };
        assert(r.spec_lines() =~= seq![header_line(size)]);
        r
    }

    /// Ends the SVG.
    pub fn finish(self) -> (r: Svg)
        ensures
            r.spec_lines() == self.spec_lines().push(footer_line()),
    {
        let mut lines = self.lines;
        lines.push(String::from_str("</svg>"));
        let r = Svg { lines };
        assert(r.spec_lines() =~= self.spec_lines().push(footer_line()));
        r
    }

    fn push_line(&mut self, line: String, p: Ghost<Primitive>)
        requires
            line@ == primitive_line(p@),
        ensures
            final(self).spec_lines() == old(self).spec_lines().push(primitive_line(p@)),
            final(self).drawn() == old(self).drawn().push(p@),
    {
        self.lines.push(line);
        self.drawn = Ghost(self.drawn@.push(p@));
        assert(self.spec_lines() =~= old(self).spec_lines().push(primitive_line(p@)));
    }
}

impl Renderer for SvgBuilder {
    closed spec fn drawn(&self) -> Seq<Primitive> {
        self.drawn@
    }

    fn render_rectangle(&mut self, x: i32, y: i32, size: Size2d, color: Color) {
        let mut line = String::from_str("  <rect x=\"");
        append_decimal(&mut line, x as i64);
        line.append("\" y=\"");
        append_decimal(&mut line, y as i64);
        line.append("\" width=\"");
        append_decimal(&mut line, size.width() as i64);
        line.append("\" height=\"");
        append_decimal(&mut line, size.height() as i64);
        line.append("\" fill=\"");
        line.append(color.to_hex().as_str());
        line.append("\"/>");
        self.push_line(line, Ghost(Primitive::Rectangle { x, y, size, color }));
    }

    fn render_transformed_rectangle(
        &mut self,
        p0: Point2d,
        p1: Point2d,
        p2: Point2d,
        p3: Point2d,
        color: Color,
    ) {
        let mut line = String::from_str("  <polygon points=\"");
        append_decimal(&mut line, p0.x as i64);
        line.append(",");
        append_decimal(&mut line, p0.y as i64);
        line.append(" ");
        append_decimal(&mut line, p1.x as i64);
        line.append(",");
        append_decimal(&mut line, p1.y as i64);
        line.append(" ");
        append_decimal(&mut line, p2.x as i64);
        line.append(",");
        append_decimal(&mut line, p2.y as i64);
        line.append(" ");
        append_decimal(&mut line, p3.x as i64);
        line.append(",");
        append_decimal(&mut line, p3.y as i64);
        line.append("\" fill=\"");
        line.append(color.to_hex().as_str());
        line.append("\"/>");
        self.push_line(line, Ghost(Primitive::Polygon { p0, p1, p2, p3, color }));
    }

    fn render_line(&mut self, p0: Point2d, p1: Point2d, color: Color) {
        let mut line = String::from_str("  <path d=\"M");
        append_decimal(&mut line, p0.x as i64);
        line.append(" ");
        append_decimal(&mut line, p0.y as i64);
        line.append(" ");
        append_decimal(&mut line, p1.x as i64);
        line.append(" ");
        append_decimal(&mut line, p1.y as i64);
        line.append("\" stroke=\"");
        line.append(color.to_hex().as_str());
        line.append("\" stroke-dasharray=\"1,4\"/>");
        self.push_line(line, Ghost(Primitive::Line { p0, p1, color }));
    }
}

/// Appends the decimal digits of a natural number.
fn append_digits(s: &mut String, n: u64)
    ensures
        final(s)@ == old(s)@ + digits(n as nat),
    decreases n,
{
    if n >= 10 {
        append_digits(s, n / 10);
    }
    let d = (n % 10) as usize;
    let table = "0123456789";
    proof {
        reveal_strlit("0123456789");
        assert(table@ =~= seq!['0', '1', '2', '3', '4', '5', '6', '7', '8', '9']);
    }
    s.append(table.substring_char(d, d + 1));
    assert(final(s)@ =~= old(s)@ + digits(n as nat));
}

/// Appends an integer in decimal.
fn append_decimal(s: &mut String, n: i64)
    requires
        n > i64::MIN,
    ensures
        final(s)@ == old(s)@ + decimal(n as int),
{
    if n < 0 {
        s.append("-");
        proof {
            reveal_strlit("-");
        }
        append_digits(s, (-n) as u64);
    } else {
        append_digits(s, n as u64);
    }
    assert(final(s)@ =~= old(s)@ + decimal(n as int));
}

} // verus!
