//! Text layout: a string and per-glyph advance widths become an ordered
//! sequence of positioned glyphs, left to right, top-aligned, wrapping to
//! the next line when the pen reaches the right edge and omitting glyphs
//! whose line starts at or below the bottom edge.

use vstd::prelude::*;

verus! {

/// One glyph of a laid-out string: the character, its index in the input
/// string, and the top-left pixel of its bitmap in surface coordinates.
#[derive(Clone, Copy, Debug, PartialEq, Eq, Structural)]
pub struct PositionedGlyph {
    pub index: usize,
    pub character: char,
    pub x: usize,
    pub y: usize,
}

/// `a + b` capped at `usize::MAX`.
pub open spec fn spec_sat_add(a: int, b: int) -> int {
    if a + b > usize::MAX {
        usize::MAX as int
    } else {
        a + b
    }
}

/// `a + b` capped at `usize::MAX`.
pub fn sat_add(a: usize, b: usize) -> (r: usize)
    ensures
        r == spec_sat_add(a as int, b as int),
{
    if a <= usize::MAX - b {
        a + b
    } else {
        usize::MAX
    }
}

/// The character at `i`, or a space when `i` lies outside `chars`: a
/// total stand-in for `chars[i]` inside the layout recursion.
pub open spec fn char_at(chars: Seq<char>, i: int) -> char {
    if 0 <= i < chars.len() {
        chars[i]
    } else {
        ' '
    }
}

/// The glyph at `i`, or a motionless glyph of no character when `i` lies
/// outside `s`: a total stand-in for `s[i]` inside recursive spec
/// functions.
pub open spec fn glyph_at(s: Seq<PositionedGlyph>, i: int) -> PositionedGlyph {
    if 0 <= i < s.len() {
        s[i]
    } else {
        PositionedGlyph { index: 0, character: ' ', x: 0, y: 0 }
    }
}

/// The glyph positions for `chars[i..]` with the pen at `(pen_x, pen_y)`.
///
/// A newline is a hard break: no glyph, the pen returns to `anchor_x` and
/// moves down one line.  Any other character is placed at the pen, or at
/// the start of the next line when the pen has reached `max_width`; it is
/// emitted only when its line lies above `max_height`, and in either case
/// the pen advances by the character's advance width.
pub open spec fn spec_layout_from(
    chars: Seq<char>,
    advances: Seq<usize>,
    i: int,
    pen_x: int,
    pen_y: int,
    anchor_x: int,
    line_height: int,
    max_width: int,
    max_height: int,
) -> Seq<PositionedGlyph>
    decreases chars.len() - i,
{
    if i < 0 || i >= chars.len() {
        Seq::empty()
    } else if chars[i] == '\n' {
        spec_layout_from(
            chars,
            advances,
            i + 1,
            anchor_x,
            spec_sat_add(pen_y, line_height),
            anchor_x,
            line_height,
            max_width,
            max_height,
        )
    } else {
        let gx = if pen_x >= max_width { anchor_x } else { pen_x };
        let gy = if pen_x >= max_width {
            spec_sat_add(pen_y, line_height)
        } else {
            pen_y
        };
        let rest = spec_layout_from(
            chars,
            advances,
            i + 1,
            spec_sat_add(gx, advances[i] as int),
            gy,
            anchor_x,
            line_height,
            max_width,
            max_height,
        );
        if gy < max_height {
            seq![
                PositionedGlyph {
                    index: i as usize,
                    character: char_at(chars, i),
                    x: gx as usize,
                    y: gy as usize,
                },
            ] + rest
        } else {
            rest
        }
    }
}

/// The full layout of `chars` anchored at `(anchor_x, anchor_y)`.
pub open spec fn spec_layout(
    chars: Seq<char>,
    advances: Seq<usize>,
    anchor_x: int,
    anchor_y: int,
    line_height: int,
    max_width: int,
    max_height: int,
) -> Seq<PositionedGlyph> {
    spec_layout_from(
        chars,
        advances,
        0,
        anchor_x,
        anchor_y,
        anchor_x,
        line_height,
        max_width,
        max_height,
    )
}

/// Each glyph of `s` carries the index of a character of `chars`, repeats
/// that character, and sits above `max_height`.
pub open spec fn glyphs_wf(s: Seq<PositionedGlyph>, chars: Seq<char>, max_height: int) -> bool {
    forall|k: int|
        0 <= k < s.len() ==> {
            let g = #[trigger] s[k];
            &&& 0 <= g.index < chars.len()
            &&& g.character == chars[g.index as int]
            &&& g.y < max_height
        }
}

/// Every glyph that a layout emits is well-formed in the sense of
/// `glyphs_wf`.
pub proof fn lemma_layout_from_glyphs_wf(
    chars: Seq<char>,
    advances: Seq<usize>,
    i: int,
    pen_x: int,
    pen_y: int,
    anchor_x: int,
    line_height: int,
    max_width: int,
    max_height: int,
)
    requires
        chars.len() <= usize::MAX,
        0 <= pen_x <= usize::MAX,
        0 <= pen_y <= usize::MAX,
        0 <= anchor_x <= usize::MAX,
        0 <= line_height <= usize::MAX,
    ensures
        glyphs_wf(
            spec_layout_from(
                chars,
                advances,
                i,
                pen_x,
                pen_y,
                anchor_x,
                line_height,
                max_width,
                max_height,
            ),
            chars,
            max_height,
        ),
    decreases chars.len() - i,
{
    if i < 0 || i >= chars.len() {
    } else if chars[i] == '\n' {
        lemma_layout_from_glyphs_wf(
            chars,
            advances,
            i + 1,
            anchor_x,
            spec_sat_add(pen_y, line_height),
            anchor_x,
            line_height,
            max_width,
            max_height,
        );
    } else {
        let gx = if pen_x >= max_width { anchor_x } else { pen_x };
        let gy = if pen_x >= max_width {
            spec_sat_add(pen_y, line_height)
        } else {
            pen_y
        };
        let rest = spec_layout_from(
            chars,
            advances,
            i + 1,
            spec_sat_add(gx, advances[i] as int),
            gy,
            anchor_x,
            line_height,
            max_width,
            max_height,
        );
        lemma_layout_from_glyphs_wf(
            chars,
            advances,
            i + 1,
            spec_sat_add(gx, advances[i] as int),
            gy,
            anchor_x,
            line_height,
            max_width,
            max_height,
        );
        if gy < max_height {
            let g = PositionedGlyph {
                index: i as usize,
                character: char_at(chars, i),
                x: gx as usize,
                y: gy as usize,
            };
            let s = seq![g] + rest;
            assert forall|k: int| 0 <= k < s.len() implies {
                let gk = #[trigger] s[k];
                &&& 0 <= gk.index < chars.len()
                &&& gk.character == chars[gk.index as int]
                &&& gk.y < max_height
            } by {
                if k == 0 {
                    assert(s[0] == g);
                } else {
                    assert(s[k] == rest[k - 1]);
                }
            }
        }
    }
}

/// Lay out `chars` with the given per-character advance widths.
///
/// The result is exactly `spec_layout` of the inputs: layout is a pure
/// function of its arguments, with no hidden state.
pub fn layout_glyphs(
    chars: &Vec<char>,
    advances: &Vec<usize>,
    anchor_x: usize,
    anchor_y: usize,
    line_height: usize,
    max_width: usize,
    max_height: usize,
) -> (r: Vec<PositionedGlyph>)
    requires
        advances@.len() == chars@.len(),
    ensures
        r@ == spec_layout(
            chars@,
            advances@,
            anchor_x as int,
            anchor_y as int,
            line_height as int,
            max_width as int,
            max_height as int,
        ),
{
    let ghost total = spec_layout(
        chars@,
        advances@,
        anchor_x as int,
        anchor_y as int,
        line_height as int,
        max_width as int,
        max_height as int,
    );
    let mut r: Vec<PositionedGlyph> = Vec::new();
    let mut pen_x: usize = anchor_x;
    let mut pen_y: usize = anchor_y;
    let mut i: usize = 0;
    while i < chars.len()
        invariant
            advances@.len() == chars@.len(),
            i <= chars@.len(),
            r@ + spec_layout_from(
                chars@,
                advances@,
                i as int,
                pen_x as int,
                pen_y as int,
                anchor_x as int,
                line_height as int,
                max_width as int,
                max_height as int,
            ) == total,
        decreases chars@.len() - i,
    {
        let c = chars[i];
        let ghost before = spec_layout_from(
            chars@,
            advances@,
            i as int,
            pen_x as int,
            pen_y as int,
            anchor_x as int,
            line_height as int,
            max_width as int,
            max_height as int,
        );
        if c == '\n' {
            proof {
                assert(before == spec_layout_from(
                    chars@,
                    advances@,
                    i as int + 1,
                    anchor_x as int,
                    spec_sat_add(pen_y as int, line_height as int),
                    anchor_x as int,
                    line_height as int,
                    max_width as int,
                    max_height as int,
                ));
            }
            pen_x = anchor_x;
            pen_y = sat_add(pen_y, line_height);
        } else {
            let gx: usize = if pen_x >= max_width { anchor_x } else { pen_x };
            let gy: usize = if pen_x >= max_width {
                sat_add(pen_y, line_height)
            } else {
                pen_y
            };
            let ghost after = spec_layout_from(
                chars@,
                advances@,
                i as int + 1,
                spec_sat_add(gx as int, advances@[i as int] as int),
                gy as int,
                anchor_x as int,
                line_height as int,
                max_width as int,
                max_height as int,
            );
            if gy < max_height {
                let g = PositionedGlyph { index: i, character: c, x: gx, y: gy };
                proof {
                    assert(before =~= seq![g] + after);
                    assert(r@ + (seq![g] + after) =~= (r@ + seq![g]) + after);
                }
                r.push(g);
            } else {
                proof {
                    assert(before == after);
                }
            }
            pen_x = sat_add(gx, advances[i]);
            pen_y = gy;
        }
        i = i + 1;
    }
    proof {
        assert(r@ =~= total);
    }
    r
}

/// Laying out the same string, advances and anchor twice gives the same
/// glyph sequence: layout has no hidden mutable state.
pub proof fn lemma_layout_idempotent(
    first: Seq<PositionedGlyph>,
    second: Seq<PositionedGlyph>,
    chars: Seq<char>,
    advances: Seq<usize>,
    anchor_x: int,
    anchor_y: int,
    line_height: int,
    max_width: int,
    max_height: int,
)
    requires
        first == spec_layout(chars, advances, anchor_x, anchor_y, line_height, max_width, max_height),
        second == spec_layout(chars, advances, anchor_x, anchor_y, line_height, max_width, max_height),
    ensures
        first == second,
{
}

} // verus!
