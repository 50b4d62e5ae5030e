//! What an overlay puts on the screen: cells and texts, each with its style.

use vstd::prelude::*;

use crate::model::Rect;
use crate::text::{head, owned};

verus! {

/// A colour of the terminal.
#[derive(Clone, Copy, Debug, PartialEq, Eq, Structural)]
pub enum Color {
    Reset,
    Black,
    Red,
    Green,
    Yellow,
    Blue,
    Magenta,
    Cyan,
    Gray,
    DarkGray,
    LightRed,
    LightGreen,
    LightYellow,
    LightBlue,
    LightMagenta,
    LightCyan,
    White,
    Rgb(u8, u8, u8),
    Indexed(u8),
}

/// How a cell looks; a colour that is not given stays as it is.
#[derive(Clone, Copy, Debug, PartialEq, Eq, Structural)]
pub struct Style {
    pub fg: Option<Color>,
    pub bg: Option<Color>,
    pub bold: bool,
    pub dim: bool,
}

pub open spec fn plain() -> Style {
    Style { fg: None, bg: None, bold: false, dim: false }
}

/// The style with a foreground of that number.
pub open spec fn shaded(s: Style, index: u8) -> Style {
    Style { fg: Some(Color::Indexed(index)), ..s }
}

/// A style with a background and a foreground of these numbers.
pub open spec fn on(back: u8, front: u8) -> Style {
    Style {
        fg: Some(Color::Indexed(front)),
        bg: Some(Color::Indexed(back)),
        bold: false,
        dim: false,
    }
}

impl Style {
    pub fn plain() -> (s: Style)
        ensures
            s == plain(),
    {
        Style { fg: None, bg: None, bold: false, dim: false }
    }

    pub fn on(back: u8, front: u8) -> (s: Style)
        ensures
            s == on(back, front),
    {
        Style {
            fg: Some(Color::Indexed(front)),
            bg: Some(Color::Indexed(back)),
            bold: false,
            dim: false,
        }
    }

    pub fn shaded(self, index: u8) -> (s: Style)
        ensures
            s == shaded(self, index),
    {
        Style { fg: Some(Color::Indexed(index)), bg: self.bg, bold: self.bold, dim: self.dim }
    }

    pub fn colored(self, color: Color) -> (s: Style)
        ensures
            s == (Style { fg: Some(color), ..self }),
    {
        Style { fg: Some(color), bg: self.bg, bold: self.bold, dim: self.dim }
    }

    pub fn bold(self) -> (s: Style)
        ensures
            s == (Style { bold: true, ..self }),
    {
        Style { fg: self.fg, bg: self.bg, bold: true, dim: self.dim }
    }

    pub fn dim(self, dim: bool) -> (s: Style)
        ensures
            s == (Style { dim, ..self }),
    {
        Style { fg: self.fg, bg: self.bg, bold: self.bold, dim }
    }
}

/// Something that is put on the screen.
#[derive(Debug)]
pub enum Paint {
    /// The same symbol in every cell of an area.
    Fill { area: Rect, symbol: &'static str, style: Style },
    /// Another style for the cells of an area.
    Restyle { area: Rect, style: Style },
    /// A text, of which at most so many cells are shown.
    Text { x: u16, y: u16, text: String, room: usize, style: Style },
}

pub enum PaintV {
    Fill { area: Rect, symbol: Seq<char>, style: Style },
    Restyle { area: Rect, style: Style },
    Text { x: u16, y: u16, text: Seq<char>, room: usize, style: Style },
}

impl View for Paint {
    type V = PaintV;

    open spec fn view(&self) -> PaintV {
        match self {
            Paint::Fill { area, symbol, style } => PaintV::Fill {
                area: *area,
                symbol: symbol@,
                style: *style,
            },
            Paint::Restyle { area, style } => PaintV::Restyle { area: *area, style: *style },
            Paint::Text { x, y, text, room, style } => PaintV::Text {
                x: *x,
                y: *y,
                text: text@,
                room: *room,
                style: *style,
            },
        }
    }
}

pub open spec fn paints(s: Seq<Paint>) -> Seq<PaintV> {
    s.map_values(|p: Paint| p@)
}

pub open spec fn filled(x: int, y: int, width: int, height: int, symbol: Seq<char>, style: Style)
    -> PaintV {
    PaintV::Fill { area: area(x, y, width, height), symbol, style }
}

pub open spec fn written(x: int, y: int, text: Seq<char>, room: int, style: Style) -> PaintV {
    PaintV::Text { x: x as u16, y: y as u16, text, room: room as usize, style }
}

pub open spec fn area(x: int, y: int, width: int, height: int) -> Rect {
    Rect { x: x as u16, y: y as u16, width: width as u16, height: height as u16 }
}

pub fn fill(out: &mut Vec<Paint>, area: Rect, symbol: &'static str, style: Style)
    ensures
        paints(final(out)@) == paints(old(out)@).push(
            PaintV::Fill { area, symbol: symbol@, style },
        ),
{
    out.push(Paint::Fill { area, symbol, style });
    assert(paints(out@) =~= paints(old(out)@).push(PaintV::Fill { area, symbol: symbol@, style }));
}

pub fn restyle(out: &mut Vec<Paint>, area: Rect, style: Style)
    ensures
        paints(final(out)@) == paints(old(out)@).push(PaintV::Restyle { area, style }),
{
    out.push(Paint::Restyle { area, style });
    assert(paints(out@) =~= paints(old(out)@).push(PaintV::Restyle { area, style }));
}

pub fn put_text(out: &mut Vec<Paint>, x: u16, y: u16, text: &str, room: usize, style: Style)
    ensures
        paints(final(out)@) == paints(old(out)@).push(
            PaintV::Text { x, y, text: text@, room, style },
        ),
{
    out.push(Paint::Text { x, y, text: owned(text), room, style });
    assert(paints(out@) =~= paints(old(out)@).push(
        PaintV::Text { x, y, text: text@, room, style },
    ));
}

/// Whether a painting stays in an area.
pub open spec fn stays_in(p: PaintV, area: Rect) -> bool {
    match p {
        PaintV::Fill { area: a, .. } => lies_in(a, area),
        PaintV::Restyle { area: a, .. } => lies_in(a, area),
        PaintV::Text { x, y, room, .. } => area.x <= x && x + room <= area.x + area.width && area.y
            <= y < area.y + area.height,
    }
}

pub open spec fn lies_in(a: Rect, area: Rect) -> bool {
    area.x <= a.x && a.x + a.width <= area.x + area.width && area.y <= a.y && a.y + a.height
        <= area.y + area.height
}

pub open spec fn all_stay_in(s: Seq<PaintV>, area: Rect) -> bool {
    forall|i: int| 0 <= i < s.len() ==> stays_in(#[trigger] s[i], area)
}

/// A text cut to a number of characters, the last of which then stands for what is missing.
pub open spec fn shortened(s: Seq<char>, max: int) -> Seq<char> {
    if s.len() <= max {
        s
    } else if max <= 0 {
        seq![]
    } else {
        s.take(max - 1).push('…')
    }
}

pub fn truncate(s: &str, max: usize) -> (r: String)
    ensures
        r@ == shortened(s@, max as int),
        r@.len() <= max,
{
    if s.unicode_len() <= max {
        return owned(s);
    }
    if max == 0 {
        return String::new();
    }
    let mut r: String = head(s, max - 1);
    r.push('…');
    r
}

/// The border of a box: dashes, bars, and a plus sign in each corner.
pub open spec fn border(r: Rect, style: Style) -> Seq<PaintV> {
    if r.width < 2 || r.height < 2 {
        seq![]
    } else {
        let right = r.x + r.width - 1;
        let bottom = r.y + r.height - 1;
        seq![
            filled(r.x + 1, r.y as int, r.width - 2, 1, "-"@, style),
            filled(r.x + 1, bottom, r.width - 2, 1, "-"@, style),
            filled(r.x as int, r.y + 1, 1, r.height - 2, "|"@, style),
            filled(right, r.y + 1, 1, r.height - 2, "|"@, style),
            filled(r.x as int, r.y as int, 1, 1, "+"@, style),
            filled(right, r.y as int, 1, 1, "+"@, style),
            filled(r.x as int, bottom, 1, 1, "+"@, style),
            filled(right, bottom, 1, 1, "+"@, style),
        ]
    }
}

/// Whether the cells of a box can be counted.
pub open spec fn countable(r: Rect) -> bool {
    r.x + r.width <= u16::MAX && r.y + r.height <= u16::MAX
}

pub fn draw_border(out: &mut Vec<Paint>, r: Rect, style: Style)
    requires
        countable(r),
    ensures
        paints(final(out)@) == paints(old(out)@) + border(r, style),
{
    if r.width < 2 || r.height < 2 {
        assert(paints(out@) + seq![] =~= paints(out@));
        return;
    }
    let right: u16 = r.x + r.width - 1;
    let bottom: u16 = r.y + r.height - 1;
    fill(out, Rect { x: r.x + 1, y: r.y, width: r.width - 2, height: 1 }, "-", style);
    fill(out, Rect { x: r.x + 1, y: bottom, width: r.width - 2, height: 1 }, "-", style);
    fill(out, Rect { x: r.x, y: r.y + 1, width: 1, height: r.height - 2 }, "|", style);
    fill(out, Rect { x: right, y: r.y + 1, width: 1, height: r.height - 2 }, "|", style);
    fill(out, Rect { x: r.x, y: r.y, width: 1, height: 1 }, "+", style);
    fill(out, Rect { x: right, y: r.y, width: 1, height: 1 }, "+", style);
    fill(out, Rect { x: r.x, y: bottom, width: 1, height: 1 }, "+", style);
    fill(out, Rect { x: right, y: bottom, width: 1, height: 1 }, "+", style);
    assert(paints(out@) =~= paints(old(out)@) + border(r, style));
}

/// What an overlay puts on the screen, and where the cursor then stands.
#[derive(Debug)]
pub struct Drawing {
    pub paints: Vec<Paint>,
    pub cursor: (u16, u16),
}

/// A drawing, as its paintings and its cursor.
pub struct DrawingV {
    pub paints: Seq<PaintV>,
    pub cursor: (u16, u16),
}

impl View for Drawing {
    type V = DrawingV;

    open spec fn view(&self) -> DrawingV {
        DrawingV { paints: paints(self.paints@), cursor: self.cursor }
    }
}

/// A text that is too long is cut, and what shows so is its last character; one that fits stays as
/// it is.
pub proof fn law_shortened(s: Seq<char>, max: nat)
    ensures
        shortened(s, max as int).len() <= max,
        s.len() <= max ==> shortened(s, max as int) == s,
        s.len() > max && max > 0 ==> {
            let cut = shortened(s, max as int);
            &&& cut.len() == max
            &&& cut.last() == '…'
            &&& cut.drop_last().is_prefix_of(s)
        },
{
    if s.len() > max && max > 0 {
        let cut = shortened(s, max as int);
        assert(cut.drop_last() =~= s.take(max - 1));
    }
}

/// A border runs along the four sides of an area, within it, with a mark in each corner.
pub proof fn law_border(r: Rect, style: Style)
    requires
        countable(r),
        r.width >= 2,
        r.height >= 2,
    ensures
        ({
            let b = border(r, style);
            let right = (r.x + r.width - 1) as u16;
            let bottom = (r.y + r.height - 1) as u16;
            let fills = |x: u16, y: u16, width: int, height: int, symbol: Seq<char>|
                b.contains(
                    PaintV::Fill {
                        area: Rect { x, y, width: width as u16, height: height as u16 },
                        symbol,
                        style,
                    },
                );
            &&& fills((r.x + 1) as u16, r.y, r.width - 2, 1, "-"@)
            &&& fills((r.x + 1) as u16, bottom, r.width - 2, 1, "-"@)
            &&& fills(r.x, (r.y + 1) as u16, 1, r.height - 2, "|"@)
            &&& fills(right, (r.y + 1) as u16, 1, r.height - 2, "|"@)
            &&& fills(r.x, r.y, 1, 1, "+"@) && fills(right, r.y, 1, 1, "+"@)
            &&& fills(r.x, bottom, 1, 1, "+"@) && fills(right, bottom, 1, 1, "+"@)
            &&& all_stay_in(b, r)
        }),
{
    let b = border(r, style);
    assert(b.contains(b[0]) && b.contains(b[1]) && b.contains(b[2]) && b.contains(b[3]));
    assert(b.contains(b[4]) && b.contains(b[5]) && b.contains(b[6]) && b.contains(b[7]));
}

} // verus!
