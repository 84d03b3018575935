//! What there is to draw of a boid: its body, and on request the circles
//! of its two radii and a stroke along its heading. Coordinates are whole
//! pixels; the drawing itself is left to the caller.

use vstd::prelude::*;
use crate::config::{scalar_within_limit, within_limit, Config, MAX_EXTENT};
use crate::fixed::{
    div_toward_zero, lemma_product_bound, lemma_quotient_within, quotient, LIMIT, ONE,
};
use crate::flock::{Boid, BoidModel};
use crate::vector::lemma_unit_fits;

verus! {

/// How boids are shown.
#[derive(Clone, Copy, Debug, PartialEq, Eq, Structural)]
pub struct Display {
    /// Side of the square that stands for a boid, in pixels.
    pub boid_size: i32,
    /// Show a boid as a single pixel in place of the square.
    pub single_pixel: bool,
    /// Show the circle of the neighbor radius.
    pub neighbor_circle: bool,
    /// Show the circle of the protected radius.
    pub protected_circle: bool,
    /// Show a stroke along the heading.
    pub heading_stroke: bool,
    /// Length of that stroke, a fixed-point number of pixels.
    pub stroke_length: i64,
}

/// One thing to draw.
#[derive(Clone, Copy, Debug, PartialEq, Eq, Structural)]
pub enum Shape {
    /// The outline of the circle of the neighbor radius.
    NeighborCircle { x: i32, y: i32, radius: i64 },
    /// The outline of the circle of the protected radius.
    ProtectedCircle { x: i32, y: i32, radius: i64 },
    /// A stroke from the boid along its heading.
    HeadingStroke { x: i32, y: i32, tip_x: i32, tip_y: i32 },
    /// The boid as one pixel.
    Pixel { x: i32, y: i32 },
    /// The boid as a filled square, given by its corner and its side.
    Square { x: i32, y: i32, side: i32 },
}

/// The pixel that the fixed-point coordinate `value` falls in, counted
/// toward zero.
pub open spec fn pixel_of(value: int) -> int {
    div_toward_zero(value, ONE as int)
}

impl Display {
    /// The side of the square is not negative and not beyond `MAX_EXTENT`,
    /// and the stroke is not longer than `LIMIT`.
    pub open spec fn valid(&self) -> bool {
        0 <= self.boid_size <= MAX_EXTENT && within_limit(self.stroke_length as int)
    }

    /// Whether the display can be drawn.
    pub fn is_valid(&self) -> (b: bool)
        ensures
            b == self.valid(),
    {
        0 <= self.boid_size && self.boid_size <= MAX_EXTENT && scalar_within_limit(
            self.stroke_length,
        )
    }
}

/// The circle of the neighbor radius around `b`.
pub open spec fn neighbor_circle(b: BoidModel, c: Config) -> Shape {
    Shape::NeighborCircle {
        x: pixel_of(b.position.x) as i32,
        y: pixel_of(b.position.y) as i32,
        radius: c.neighbor_radius,
    }
}

/// The circle of the protected radius around `b`.
pub open spec fn protected_circle(b: BoidModel, c: Config) -> Shape {
    Shape::ProtectedCircle {
        x: pixel_of(b.position.x) as i32,
        y: pixel_of(b.position.y) as i32,
        radius: c.protected_radius,
    }
}

/// The stroke from `b` along its heading.
pub open spec fn heading_stroke(b: BoidModel, d: Display) -> Shape {
    let tip = b.position.plus(b.heading.scaled(d.stroke_length as int));
    Shape::HeadingStroke {
        x: pixel_of(b.position.x) as i32,
        y: pixel_of(b.position.y) as i32,
        tip_x: pixel_of(tip.x) as i32,
        tip_y: pixel_of(tip.y) as i32,
    }
}

/// The body of `b`: one pixel, or a square centred on the boid.
pub open spec fn body(b: BoidModel, d: Display) -> Shape {
    if d.single_pixel {
        Shape::Pixel { x: pixel_of(b.position.x) as i32, y: pixel_of(b.position.y) as i32 }
    } else {
        Shape::Square {
            x: pixel_of(b.position.x - d.boid_size * ONE / 2) as i32,
            y: pixel_of(b.position.y - d.boid_size * ONE / 2) as i32,
            side: d.boid_size,
        }
    }
}

/// All there is to draw of `b`, from the back to the front: the circles
/// and the stroke that the display asks for, then the body.
pub open spec fn shapes(b: BoidModel, c: Config, d: Display) -> Seq<Shape> {
    let circles = if d.neighbor_circle {
        seq![neighbor_circle(b, c)]
    } else {
        Seq::empty()
    } + if d.protected_circle {
        seq![protected_circle(b, c)]
    } else {
        Seq::empty()
    };
    let stroke = if d.heading_stroke {
        seq![heading_stroke(b, d)]
    } else {
        Seq::empty()
    };
    circles + stroke + seq![body(b, d)]
}

/// The pixel of a coordinate that lies within `2 * LIMIT` of zero.
fn to_pixel(value: i64) -> (p: i32)
    requires
        -2 * LIMIT <= value <= 2 * LIMIT,
    ensures
        p == pixel_of(value as int),
{
    proof {
        lemma_quotient_within(value as int, ONE as int, 2 * MAX_EXTENT);
    }
    quotient(value as i128, ONE as i128) as i32
}

/// Lists what there is to draw of `boid`.
pub fn shapes_of(boid: &Boid, config: &Config, display: &Display) -> (list: Vec<Shape>)
    requires
        boid@.valid(),
        display.valid(),
    ensures
        list@ == shapes(boid@, *config, *display),
{
    let x = to_pixel(boid.position.x);
    let y = to_pixel(boid.position.y);
    let mut list: Vec<Shape> = Vec::new();
    if display.neighbor_circle {
        list.push(Shape::NeighborCircle { x, y, radius: config.neighbor_radius });
    }
    if display.protected_circle {
        list.push(Shape::ProtectedCircle { x, y, radius: config.protected_radius });
    }
    if display.heading_stroke {
        proof {
            lemma_unit_fits(boid.heading@);
            let k = display.stroke_length as int;
            lemma_product_bound(boid.heading.x as int, k, ONE as int, LIMIT as int);
            lemma_product_bound(boid.heading.y as int, k, ONE as int, LIMIT as int);
            lemma_quotient_within(boid.heading.x * k, ONE as int, LIMIT as int);
            lemma_quotient_within(boid.heading.y * k, ONE as int, LIMIT as int);
        }
        let tip = boid.position.plus(boid.heading.scaled(display.stroke_length));
        list.push(Shape::HeadingStroke { x, y, tip_x: to_pixel(tip.x), tip_y: to_pixel(tip.y) });
    }
    if display.single_pixel {
        list.push(Shape::Pixel { x, y });
    } else {
        let half: i64 = display.boid_size as i64 * ONE / 2;
        list.push(
            Shape::Square {
                x: to_pixel(boid.position.x - half),
                y: to_pixel(boid.position.y - half),
                side: display.boid_size,
            },
        );
    }
    assert(list@ =~= shapes(boid@, *config, *display));
    list
}

} // verus!
