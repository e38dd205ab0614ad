use vstd::prelude::*;
use crate::cam::Camera;
use crate::render::{render_pixel, render_req, render_spec, Place, Sample};
use crate::scalar::{exact, Scalar};
use crate::sphere::Sphere;
use crate::vec3::Vec3;

verus! {

/// A raster of RGB pixels, eight bits a channel; row 0 is the top row.
///
/// It holds an `image::RgbImage`, which the verifier does not look into:
/// what is known of it is what the four wrappers below state.
#[verifier::external_body]
pub struct Canvas {
    img: image::RgbImage,
}

/// The width and the height of a canvas, in pixels.
pub uninterp spec fn canvas_size(c: Canvas) -> (u32, u32);

/// The pixels of a canvas: at `(x, y)` the red, green and blue of the pixel in
/// column `x` of row `y`.
pub uninterp spec fn canvas_pixels(c: Canvas) -> Map<(u32, u32), (u8, u8, u8)>;

/// Whether `(x, y)` is a pixel of a raster `size.0` wide and `size.1` high.
pub open spec fn in_bounds(size: (u32, u32), x: u32, y: u32) -> bool {
    x < size.0 && y < size.1
}

/// Whether every pixel of the canvas is there and black.
pub open spec fn all_black(c: Canvas) -> bool {
    forall|x: u32, y: u32|
        #[trigger] in_bounds(canvas_size(c), x, y) ==> canvas_pixels(c).dom().contains((x, y))
            && canvas_pixels(c)[(x, y)] == (0u8, 0u8, 0u8)
}

/// `image::ImageBuffer::new`: a buffer of the given size with every channel
/// zero. It panics where the number of channels does not fit a vector, so
/// `requires` keeps to sizes that do.
#[verifier::external_body]
fn blank(width: u32, height: u32) -> (c: Canvas)
    requires
        3 * width * height <= isize::MAX,
    ensures
        canvas_size(c) == (width, height),
        all_black(c),
{
    Canvas { img: image::RgbImage::new(width, height) }
}

/// `image::ImageBuffer::dimensions`: the width and the height.
#[verifier::external_body]
fn size_of(c: &Canvas) -> (r: (u32, u32))
    ensures
        r == canvas_size(*c),
{
    c.img.dimensions()
}

/// `image::ImageBuffer::put_pixel`: the pixel at `(x, y)` becomes the one
/// given, and nothing else changes. It panics outside the raster, so
/// `requires` keeps inside.
#[verifier::external_body]
fn put(c: &mut Canvas, x: u32, y: u32, r: u8, g: u8, b: u8)
    requires
        in_bounds(canvas_size(*old(c)), x, y),
    ensures
        canvas_size(*final(c)) == canvas_size(*old(c)),
        canvas_pixels(*final(c)) == canvas_pixels(*old(c)).insert((x, y), (r, g, b)),
{
    c.img.put_pixel(x, y, image::Rgb([r, g, b]));
}

/// `image::ImageBuffer::into_raw`: the channels of all pixels in one vector,
/// row after row from the top, three bytes a pixel.
#[verifier::external_body]
fn raw(c: Canvas) -> (r: Vec<u8>)
    ensures
        r@.len() == 3 * canvas_size(c).0 * canvas_size(c).1,
        forall|x: u32, y: u32|
            in_bounds(canvas_size(c), x, y) ==> {
                &&& r@[3 * (y * canvas_size(c).0 + x)] == (#[trigger] canvas_pixels(c)[(x, y)]).0
                &&& r@[3 * (y * canvas_size(c).0 + x) + 1] == canvas_pixels(c)[(x, y)].1
                &&& r@[3 * (y * canvas_size(c).0 + x) + 2] == canvas_pixels(c)[(x, y)].2
            },
{
    c.img.into_raw()
}

/// Whether each pixel of row `y` can be rendered from its samples.
pub open spec fn row_req<T: Scalar>(
    camera: Camera<T>,
    world: Seq<Sphere<T>>,
    size: (u32, u32),
    y: u32,
    t_max: T,
    samples: Seq<Vec<Sample<T>>>,
) -> bool {
    forall|x: u32|
        x < size.0 ==> render_req(
            camera,
            world,
            place(size, x, y),
            t_max,
            (#[trigger] samples[x as int])@,
        )
}

/// The pixel in column `x` of row `y` of a raster of the given size.
pub open spec fn place(size: (u32, u32), x: u32, y: u32) -> Place {
    Place { x: x as i32, y: y as i32, width: size.0 as i32, height: size.1 as i32 }
}

/// The three channels of a pixel as a tuple.
pub open spec fn channels(p: Vec3<u8>) -> (u8, u8, u8) {
    (p.x, p.y, p.z)
}

impl Canvas {
    /// A black canvas of the given size, if its channels fit a vector.
    pub fn new(width: u32, height: u32) -> (r: Option<Canvas>)
        ensures
            r.is_some() <==> 3 * width * height <= isize::MAX,
            r matches Some(c) ==> canvas_size(c) == (width, height) && all_black(c),
    {
        assert(3 * width * height <= 3 * 0xffff_ffff * 0xffff_ffff) by (nonlinear_arith)
            requires
                width <= 0xffff_ffff,
                height <= 0xffff_ffff,
        ;
        let channels: u128 = 3 * (width as u128) * (height as u128);
        if channels <= isize::MAX as u128 {
            Some(blank(width, height))
        } else {
            None
        }
    }

    /// The width and the height.
    pub fn dimensions(&self) -> (r: (u32, u32))
        ensures
            r == canvas_size(*self),
    {
        size_of(self)
    }

    /// Renders row `y` from the samples of each of its pixels, column by
    /// column, and leaves every other row as it was.
    pub fn paint_row<T: Scalar>(
        &mut self,
        camera: &Camera<T>,
        world: &Vec<Sphere<T>>,
        y: u32,
        t_max: T,
        samples: &Vec<Vec<Sample<T>>>,
    )
        requires
            exact::<T>(),
            y < canvas_size(*old(self)).1,
            canvas_size(*old(self)).0 <= i32::MAX,
            canvas_size(*old(self)).1 <= i32::MAX,
            samples@.len() == canvas_size(*old(self)).0,
            row_req(*camera, world@, canvas_size(*old(self)), y, t_max, samples@),
        ensures
            canvas_size(*final(self)) == canvas_size(*old(self)),
            canvas_pixels(*final(self)).dom() == canvas_pixels(*old(self)).dom().union(
                Set::new(|k: (u32, u32)| k.0 < canvas_size(*old(self)).0 && k.1 == y),
            ),
            forall|x: u32|
                x < canvas_size(*old(self)).0 ==> #[trigger] canvas_pixels(*final(self))[(x, y)]
                    == channels(
                    render_spec(
                        *camera,
                        world@,
                        place(canvas_size(*old(self)), x, y),
                        t_max,
                        samples@[x as int]@,
                    ),
                ),
            forall|k: (u32, u32)|
                k.1 != y ==> #[trigger] canvas_pixels(*final(self))[k] == canvas_pixels(
                    *old(self),
                )[k],
    {
        let size = size_of(self);
        let mut x: u32 = 0;
        while x < size.0
            invariant
                exact::<T>(),
                size == canvas_size(*old(self)),
                canvas_size(*self) == size,
                y < size.1,
                size.0 <= i32::MAX,
                size.1 <= i32::MAX,
                x <= size.0,
                samples@.len() == size.0,
                row_req(*camera, world@, size, y, t_max, samples@),
                canvas_pixels(*self).dom() =~= canvas_pixels(*old(self)).dom().union(
                    Set::new(|k: (u32, u32)| k.0 < x && k.1 == y),
                ),
                forall|i: u32|
                    i < x ==> #[trigger] canvas_pixels(*self)[(i, y)] == channels(
                        render_spec(*camera, world@, place(size, i, y), t_max, samples@[i as int]@),
                    ),
                forall|k: (u32, u32)|
                    k.1 != y ==> #[trigger] canvas_pixels(*self)[k] == canvas_pixels(*old(self))[k],
            decreases size.0 - x,
        {
            let at = Place { x: x as i32, y: y as i32, width: size.0 as i32, height: size.1 as i32 };
            assert(at == place(size, x, y));
            let px = render_pixel(camera, world, at, t_max, &samples[x as usize]);
            put(self, x, y, px.x, px.y, px.z);
            x = x + 1;
        }
    }

    /// The channels of all pixels in one vector: row after row from the top,
    /// and in each row red, green and blue of each pixel from the left.
    pub fn into_bytes(self) -> (r: Vec<u8>)
        ensures
            r@.len() == 3 * canvas_size(self).0 * canvas_size(self).1,
            forall|x: u32, y: u32|
                in_bounds(canvas_size(self), x, y) ==> {
                    &&& r@[3 * (y * canvas_size(self).0 + x)] == (#[trigger] canvas_pixels(
                        self,
                    )[(x, y)]).0
                    &&& r@[3 * (y * canvas_size(self).0 + x) + 1] == canvas_pixels(self)[(x, y)].1
                    &&& r@[3 * (y * canvas_size(self).0 + x) + 2] == canvas_pixels(self)[(x, y)].2
                },
    {
        raw(self)
    }
}

} // verus!
