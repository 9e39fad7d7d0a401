//! Where the shapes of a slide are.

use vstd::prelude::*;
use crate::cellstyle::{push_turn, turn_text, Rotation};
use crate::chars::{chars_of, slice_of, string_of, text_is, trim, trimmed};
use crate::html::{decl, Style};
use crate::model::looks::{lemma_itself, lemma_part};
use crate::model::words::holds;
use crate::model::{as_px, to_px};
use crate::numfmt::tokens::{lemma_until, until};
use crate::odf::length::{
    clamp_px, clamped, len_of, parse_len, px_text, texts, words, words_from, Px, PX,
};
use crate::odf::number::{number_of, parse_number, Number, MILLIONTH};
use crate::odf::style::props::{len, len_attr};
use crate::xml::{Element, Tree};

verus! {

/// How far a shape may be from the canvas, and how large.
pub const MAX_SHAPE_PX: Px = 6_242_304_000_000;

/// The box of a shape on the canvas.
#[derive(Clone, Copy, PartialEq, Eq, Debug, Structural)]
pub struct Place {
    pub x: Px,
    pub y: Px,
    pub w: Px,
    pub h: Px,
    pub turn: Option<Rotation>,
}

pub open spec fn place_css(b: Place) -> Seq<char> {
    Seq::empty() + decl("left"@, px_text(b.x)) + decl("top"@, px_text(b.y)) + decl(
        "width"@,
        px_text(b.w),
    ) + decl("height"@, px_text(b.h)) + (match b.turn {
        Some(r) => decl("transform"@, turn_text(r)),
        None => Seq::empty(),
    })
}

impl Place {
    pub fn css(&self) -> (s: Style)
        ensures
            s.css@ == place_css(*self),
    {
        let mut s = Style::new();
        s.push_px("left", self.x);
        s.push_px("top", self.y);
        s.push_px("width", self.w);
        s.push_px("height", self.h);
        if let Some(r) = self.turn {
            let mut v: Vec<char> = Vec::new();
            push_turn(&mut v, r);
            assert(v@ =~= turn_text(r));
            s.push_chars("transform", &v);
        }
        assert(s.css@ =~= place_css(*self));
        s
    }
}

// ── transforms ───────────────────────────────────────────────────────────────

/// What a transform comes to: a shift, a turn, and whether it asks for more than that.
#[derive(Clone, Copy, PartialEq, Eq, Debug, Structural)]
pub struct Moved {
    pub dx: Px,
    pub dy: Px,
    pub turn: Option<Rotation>,
    pub odd: bool,
}

pub open spec fn unmoved() -> Moved {
    Moved { dx: 0, dy: 0, turn: None, odd: false }
}

/// The widest turn, in millionths of a radian.
pub const MAX_TURN: i64 = 100_000_000_000_000_000;

/// Millionths of a degree in so many millionths of a radian.
pub open spec fn degrees(rad: int) -> i64 {
    (if rad >= 0 {
        (rad * 57_295_779_513 + 500_000_000) / 1_000_000_000
    } else {
        -((-rad * 57_295_779_513 + 500_000_000) / 1_000_000_000)
    }) as i64
}

fn to_degrees(rad: i64) -> (r: i64)
    requires
        -MAX_TURN <= rad <= MAX_TURN,
    ensures
        r == degrees(rad as int),
{
    let a: i128 = if rad >= 0 {
        rad as i128
    } else {
        -(rad as i128)
    };
    let q: i128 = (a * 57_295_779_513 + 500_000_000) / 1_000_000_000;
    if rad >= 0 {
        q as i64
    } else {
        -(q as i64)
    }
}

/// The text without the brackets that close what stands before it.
pub open spec fn after_brackets(s: Seq<char>) -> Seq<char>
    decreases s.len(),
{
    if s.len() > 0 && s[0] == ')' {
        after_brackets(s.skip(1))
    } else {
        s
    }
}

pub open spec fn function_name(s: Seq<char>) -> Seq<char> {
    trimmed(after_brackets(trimmed(s)))
}

fn name_before(s: &Vec<char>) -> (r: Vec<char>)
    ensures
        r@ == function_name(s@),
{
    let t: Vec<char> = trim(s);
    let mut i: usize = 0;
    assert(t@.skip(0) =~= t@);
    while i < t.len() && t[i] == ')'
        invariant
            i <= t@.len(),
            after_brackets(t@.skip(i as int)) == after_brackets(t@),
        decreases t@.len() - i,
    {
        assert(t@.skip(i as int).skip(1) =~= t@.skip(i + 1));
        i = i + 1;
    }
    let rest: Vec<char> = slice_of(&t, i, t.len());
    assert(rest@ =~= t@.skip(i as int));
    trim(&rest)
}

/// The length that the `n`th word of a list is; nothing where there is no such length.
pub open spec fn nth_len(args: Seq<Seq<char>>, n: int) -> Px {
    if n < args.len() {
        match len_of(args[n]) {
            Some(v) => v,
            None => 0,
        }
    } else {
        0
    }
}

fn len_at(args: &Vec<Vec<char>>, n: usize) -> (r: Px)
    ensures
        r == nth_len(texts(args@), n as int),
{
    if n < args.len() {
        assert(texts(args@)[n as int] == args@[n as int]@);
        match parse_len(string_of(&args[n]).as_str()) {
            Some(v) => v,
            None => 0,
        }
    } else {
        0
    }
}

/// The turn that the first word of a list is, in radians; none for no turn at all, and
/// for what is no finite number.
pub open spec fn turn_of(args: Seq<Seq<char>>) -> Option<Rotation> {
    let n = number_of(args[0]);
    if args.len() > 0 && n is Some && n->0 is Finite && !n->0.is_zero() {
        Some(Rotation::Ccw(degrees(clamped(n->0.value(), -MAX_TURN, MAX_TURN as int))))
    } else {
        None
    }
}

fn turn_at(args: &Vec<Vec<char>>) -> (r: Option<Rotation>)
    ensures
        r == turn_of(texts(args@)),
{
    if args.len() == 0 {
        return None;
    }
    assert(texts(args@)[0] == args@[0]@);
    match parse_number(&args[0]) {
        Some(Number::Finite { negative, whole, parts }) => {
            if whole == 0 && parts == 0 {
                return None;
            }
            let m: i64 = if whole < 100_000_000_000 {
                whole as i64 * 1_000_000 + (parts / MILLIONTH) as i64
            } else {
                MAX_TURN
            };
            let m: i64 = if m < MAX_TURN {
                m
            } else {
                MAX_TURN
            };
            Some(
                Rotation::Ccw(
                    to_degrees(
                        if negative {
                            -m
                        } else {
                            m
                        },
                    ),
                ),
            )
        },
        _ => None,
    }
}

/// After one function of a transform.
pub open spec fn applied(t: Moved, name: Seq<char>, args: Seq<Seq<char>>) -> Moved {
    if name == "translate"@ {
        Moved {
            dx: as_px(t.dx + nth_len(args, 0)),
            dy: as_px(t.dy + nth_len(args, 1)),
            ..t
        }
    } else if name == "rotate"@ {
        Moved { turn: turn_of(args), ..t }
    } else if name.len() == 0 {
        t
    } else {
        Moved { odd: true, ..t }
    }
}

/// After the functions of a transform from `i` on.
pub open spec fn moved_from(t: Moved, s: Seq<char>, i: int) -> Moved
    decreases s.len() - i,
{
    if i < 0 || i > s.len() {
        t
    } else {
        let open = until(s, i, '(');
        let close = until(s, open, ')');
        proof {
            lemma_until(s, i, '(');
            lemma_until(s, open, ')');
        }
        if open >= s.len() || close >= s.len() {
            t
        } else {
            moved_from(
                applied(
                    t,
                    function_name(s.subrange(i, open)),
                    words_from(s.subrange(open + 1, close), 0),
                ),
                s,
                close + 1,
            )
        }
    }
}

pub open spec fn moved_by(n: Tree) -> Moved {
    match n.attr("transform"@) {
        Some(s) => moved_from(unmoved(), s, 0),
        None => unmoved(),
    }
}

fn find(s: &Vec<char>, from: usize, c: char) -> (r: usize)
    requires
        from <= s@.len(),
    ensures
        r == until(s@, from as int, c),
        from <= r <= s@.len(),
        r < s@.len() ==> s@[r as int] == c,
{
    let mut i: usize = from;
    while i < s.len() && s[i] != c
        invariant
            from <= i <= s@.len(),
            until(s@, from as int, c) == until(s@, i as int, c),
        decreases s@.len() - i,
    {
        i = i + 1;
    }
    i
}

fn apply(t: Moved, name: &Vec<char>, args: &Vec<Vec<char>>) -> (r: Moved)
    ensures
        r == applied(t, name@, texts(args@)),
{
    let mut t: Moved = t;
    if text_is(name, "translate") {
        t.dx = to_px(t.dx as i128 + len_at(args, 0) as i128);
        t.dy = to_px(t.dy as i128 + len_at(args, 1) as i128);
    } else if text_is(name, "rotate") {
        t.turn = turn_at(args);
    } else if name.len() > 0 {
        t.odd = true;
    }
    t
}

/// Reads the transform of a shape. A skew or a matrix has no place on a canvas of boxes.
pub fn transform(n: &Element) -> (r: Moved)
    ensures
        r == moved_by(n@),
{
    let s: Vec<char> = match n.attr_local("transform") {
        Some(s) => chars_of(s),
        None => {
            return Moved { dx: 0, dy: 0, turn: None, odd: false };
        },
    };
    let mut t = Moved { dx: 0, dy: 0, turn: None, odd: false };
    let ghost goal = moved_from(unmoved(), s@, 0);
    let mut i: usize = 0;
    loop
        invariant_except_break
            i <= s@.len(),
            moved_from(t, s@, i as int) == goal,
        ensures
            t == goal,
        decreases s@.len() - i,
    {
        let open: usize = find(&s, i, '(');
        if open >= s.len() {
            break;
        }
        let close: usize = find(&s, open, ')');
        if close >= s.len() {
            break;
        }
        assert(s@[open as int] == '(' && s@[close as int] == ')');
        let before: Vec<char> = slice_of(&s, i, open);
        let inside: Vec<char> = slice_of(&s, open + 1, close);
        t = apply(t, &name_before(&before), &words(&inside));
        i = close + 1;
    }
    t
}

// ── boxes ────────────────────────────────────────────────────────────────────

pub open spec fn coordinate(n: Tree, attr: Seq<char>, by: Px) -> Px {
    clamped(
        (match len_attr(n, attr) {
            Some(v) => v,
            None => 0,
        }) + by,
        -MAX_SHAPE_PX,
        MAX_SHAPE_PX as int,
    ) as i64
}

fn coord(n: &Element, attr: &str, by: Px) -> (r: Px)
    ensures
        r == coordinate(n@, attr@, by),
{
    let v: Px = match len(n, attr) {
        Some(v) => v,
        None => 0,
    };
    let sum: Px = to_px(v as i128 + by as i128);
    clamp_px(sum, -MAX_SHAPE_PX, MAX_SHAPE_PX)
}

/// A side of a shape: no longer than the longest, nor than four times the canvas.
pub open spec fn side_within(v: Px, canvas: Px) -> Px {
    let most = if v < MAX_SHAPE_PX {
        v
    } else {
        MAX_SHAPE_PX
    };
    if most < 4 * canvas {
        most
    } else {
        as_px(4 * canvas)
    }
}

fn side(v: Px, canvas: Px) -> (r: Px)
    ensures
        r == side_within(v, canvas),
{
    let most: Px = if v < MAX_SHAPE_PX {
        v
    } else {
        MAX_SHAPE_PX
    };
    let limit: i128 = 4 * canvas as i128;
    if (most as i128) < limit {
        most
    } else {
        to_px(limit)
    }
}

/// The box of a shape; none without both a width and a height.
pub open spec fn place_of(n: Tree, canvas: (Px, Px)) -> Option<Place> {
    let w = len_attr(n, "width"@);
    let h = len_attr(n, "height"@);
    if w is Some && h is Some && w->0 > 0 && h->0 > 0 {
        let t = moved_by(n);
        Some(
            Place {
                x: coordinate(n, "x"@, t.dx),
                y: coordinate(n, "y"@, t.dy),
                w: side_within(w->0, canvas.0),
                h: side_within(h->0, canvas.1),
                turn: t.turn,
            },
        )
    } else {
        None
    }
}

/// The box of a shape, and whether its transform asks for more than a box can do.
pub fn place(n: &Element, canvas: (Px, Px)) -> (r: Option<(Place, bool)>)
    ensures
        r is Some == place_of(n@, canvas) is Some,
        r matches Some(p) ==> Some(p.0) == place_of(n@, canvas) && p.1 == moved_by(n@).odd,
{
    match len(n, "width") {
        Some(w) => match len(n, "height") {
            Some(h) => {
                if w <= 0 || h <= 0 {
                    return None;
                }
                let t: Moved = transform(n);
                Some(
                    (
                        Place {
                            x: coord(n, "x", t.dx),
                            y: coord(n, "y", t.dy),
                            w: side(w, canvas.0),
                            h: side(h, canvas.1),
                            turn: t.turn,
                        },
                        t.odd,
                    ),
                )
            },
            None => None,
        },
        None => None,
    }
}

/// The length between two points on one axis.
pub open spec fn extent(a: Px, b: Px) -> Px {
    clamped(
        if a < b {
            b - a
        } else {
            a - b
        },
        PX as int,
        MAX_SHAPE_PX as int,
    ) as i64
}

pub open spec fn start(a: Px, b: Px) -> Px {
    clamped(
        if a < b {
            a as int
        } else {
            b as int
        },
        -MAX_SHAPE_PX,
        MAX_SHAPE_PX as int,
    ) as i64
}

/// The box between the ends of a line.
pub open spec fn line_place(n: Tree) -> Option<Place> {
    let x1 = len_attr(n, "x1"@);
    let y1 = len_attr(n, "y1"@);
    let x2 = len_attr(n, "x2"@);
    let y2 = len_attr(n, "y2"@);
    if x1 is Some && y1 is Some && x2 is Some && y2 is Some {
        Some(
            Place {
                x: start(x1->0, x2->0),
                y: start(y1->0, y2->0),
                w: extent(x1->0, x2->0),
                h: extent(y1->0, y2->0),
                turn: None,
            },
        )
    } else {
        None
    }
}

fn from_to(a: Px, b: Px) -> (r: (Px, Px))
    ensures
        r == (start(a, b), extent(a, b)),
{
    let lo: Px = if a < b {
        a
    } else {
        b
    };
    let hi: Px = if a < b {
        b
    } else {
        a
    };
    let d: Px = to_px(hi as i128 - lo as i128);
    (clamp_px(lo, -MAX_SHAPE_PX, MAX_SHAPE_PX), clamp_px(d, PX, MAX_SHAPE_PX))
}

pub fn line_box(n: &Element) -> (r: Option<Place>)
    ensures
        r == line_place(n@),
{
    let x1: Option<Px> = len(n, "x1");
    let y1: Option<Px> = len(n, "y1");
    let x2: Option<Px> = len(n, "x2");
    let y2: Option<Px> = len(n, "y2");
    match (x1, y1, x2, y2) {
        (Some(x1), Some(y1), Some(x2), Some(y2)) => {
            let (x, w): (Px, Px) = from_to(x1, x2);
            let (y, h): (Px, Px) = from_to(y1, y2);
            Some(Place { x, y, w, h, turn: None })
        },
        _ => None,
    }
}

/// A shape is never farther from the canvas, nor larger, than `MAX_SHAPE_PX`.
pub proof fn law_places_are_bounded(n: Tree, canvas: (Px, Px))
    requires
        0 < canvas.0,
        0 < canvas.1,
    ensures
        place_of(n, canvas) matches Some(b) ==> {
            &&& -MAX_SHAPE_PX <= b.x <= MAX_SHAPE_PX
            &&& -MAX_SHAPE_PX <= b.y <= MAX_SHAPE_PX
            &&& 0 < b.w <= MAX_SHAPE_PX
            &&& 0 < b.h <= MAX_SHAPE_PX
        },
        line_place(n) matches Some(b) ==> {
            &&& -MAX_SHAPE_PX <= b.x <= MAX_SHAPE_PX
            &&& -MAX_SHAPE_PX <= b.y <= MAX_SHAPE_PX
            &&& PX <= b.w <= MAX_SHAPE_PX
            &&& PX <= b.h <= MAX_SHAPE_PX
        },
{
}

/// A shape stands where it says: its corner at its coordinates, moved as far as its
/// transforms say, and as wide and as tall as it states. One without a width or a height
/// has no place.
pub proof fn law_a_shape_stands_where_it_says(n: Tree, canvas: (Px, Px))
    ensures
        ({
            let w = len_attr(n, "width"@);
            let h = len_attr(n, "height"@);
            let x = match len_attr(n, "x"@) {
                Some(v) => v as int,
                None => 0,
            };
            let y = match len_attr(n, "y"@) {
                Some(v) => v as int,
                None => 0,
            };
            let m = moved_by(n);
            let p = place_of(n, canvas);
            &&& p is Some <==> w is Some && h is Some && w->0 > 0 && h->0 > 0
            &&& p is Some && -MAX_SHAPE_PX <= x + m.dx <= MAX_SHAPE_PX ==> p->0.x == x + m.dx
            &&& p is Some && -MAX_SHAPE_PX <= y + m.dy <= MAX_SHAPE_PX ==> p->0.y == y + m.dy
            &&& p is Some && w->0 <= MAX_SHAPE_PX && w->0 <= 4 * canvas.0 ==> p->0.w == w->0
            &&& p is Some && h->0 <= MAX_SHAPE_PX && h->0 <= 4 * canvas.1 ==> p->0.h == h->0
            &&& p is Some ==> p->0.turn == m.turn
            &&& n.attr("transform"@) is None ==> m.dx == 0 && m.dy == 0 && m.turn is None && !m.odd
        }),
{
}

/// A line fills the box between its ends, whichever of them comes first.
pub proof fn law_a_line_stands_between_its_ends(n: Tree)
    ensures
        ({
            let x1 = len_attr(n, "x1"@);
            let x2 = len_attr(n, "x2"@);
            let y1 = len_attr(n, "y1"@);
            let y2 = len_attr(n, "y2"@);
            let p = line_place(n);
            &&& p is Some <==> x1 is Some && x2 is Some && y1 is Some && y2 is Some
            &&& p is Some ==> p->0.turn is None
            &&& p is Some && PX <= x2->0 - x1->0 <= MAX_SHAPE_PX && -MAX_SHAPE_PX <= x1->0
                <= MAX_SHAPE_PX ==> p->0.x == x1->0 && p->0.x + p->0.w == x2->0
            &&& p is Some && PX <= x1->0 - x2->0 <= MAX_SHAPE_PX && -MAX_SHAPE_PX <= x2->0
                <= MAX_SHAPE_PX ==> p->0.x == x2->0 && p->0.x + p->0.w == x1->0
            &&& p is Some && PX <= y2->0 - y1->0 <= MAX_SHAPE_PX && -MAX_SHAPE_PX <= y1->0
                <= MAX_SHAPE_PX ==> p->0.y == y1->0 && p->0.y + p->0.h == y2->0
            &&& p is Some && PX <= y1->0 - y2->0 <= MAX_SHAPE_PX && -MAX_SHAPE_PX <= y2->0
                <= MAX_SHAPE_PX ==> p->0.y == y2->0 && p->0.y + p->0.h == y1->0
        }),
{
}

/// What the functions of a transform do: `translate` moves on from where the functions
/// before it have moved to, by its first length to the right and by its second down;
/// `rotate` turns and moves nothing; any other is noted, and moves nothing either.
pub proof fn law_functions_of_a_transform(t: Moved, name: Seq<char>, args: Seq<Seq<char>>)
    ensures
        ({
            let m = applied(t, name, args);
            &&& name == "translate"@ && args.len() >= 2 && len_of(args[0]) is Some && len_of(
                args[1],
            ) is Some && i64::MIN <= t.dx + len_of(args[0])->0 <= i64::MAX && i64::MIN <= t.dy
                + len_of(args[1])->0 <= i64::MAX ==> m.dx == t.dx + len_of(args[0])->0 && m.dy
                == t.dy + len_of(args[1])->0 && m.turn == t.turn && m.odd == t.odd
            &&& name == "translate"@ && args.len() == 1 ==> m.dy == t.dy
            &&& name == "rotate"@ ==> m.dx == t.dx && m.dy == t.dy && m.odd == t.odd
            &&& name.len() == 0 ==> m == t
            &&& name.len() > 0 && name != "translate"@ && name != "rotate"@ ==> m.odd && m.dx
                == t.dx && m.dy == t.dy && m.turn == t.turn
        }),
{
    reveal_strlit("translate");
    reveal_strlit("rotate");
    assert("translate"@[0] != "rotate"@[0]);
}

/// A half turn is 180 degrees: so many millionths of a radian are so many millionths of a
/// degree, to the nearest, and a turn the other way is as far.
pub proof fn law_turns_in_degrees(rad: int)
    requires
        0 <= rad <= 100_000_000,
    ensures
        degrees(3_141_593) == 180_000_020,
        degrees(-rad) == -degrees(rad),
        -500_000_000 <= degrees(rad) * 1_000_000_000 - rad * 57_295_779_513 <= 500_000_000,
{
}

/// The box of a shape is declared: where its corner is, how wide and how tall it is, and how
/// far it is turned.
pub proof fn law_a_place_is_declared(b: Place)
    ensures
        holds(place_css(b), decl("left"@, px_text(b.x))),
        holds(place_css(b), decl("top"@, px_text(b.y))),
        holds(place_css(b), decl("width"@, px_text(b.w))),
        holds(place_css(b), decl("height"@, px_text(b.h))),
        b.turn is Some ==> holds(place_css(b), decl("transform"@, turn_text(b.turn->0))),
{
    broadcast use {lemma_part, lemma_itself};

}

} // verus!
