use crate::canvas::Canvas;
use crate::scalar::{Scalar, ZERO_BITS};
use crate::vector::{black, Color3, Point3, Vector3};
use vstd::prelude::*;

verus! {

/// What a picture is taken with, as it was worked out from the user's
/// settings: the size of the picture, where the eye is, how the pixels lie in
/// space, the lens, and how many samples a pixel gets.
#[derive(Clone, Copy, Debug, PartialEq, Eq, Structural)]
pub struct Camera {
    pub image_height: u32,
    pub image_width: u32,
    /// Where the eye is.
    pub camera_center: Point3,
    /// The step from one pixel to the next in a row.
    pub pixel_delta_u: Vector3,
    /// The step from one pixel to the next in a column.
    pub pixel_delta_v: Vector3,
    /// The centre of the pixel at the top left.
    pub pixel_00: Point3,
    /// The opening angle of the lens, in degrees.
    pub defocus_angle: Scalar,
    /// The lens's radius along the row.
    pub defocus_disk_u: Vector3,
    /// The lens's radius along the column.
    pub defocus_disk_v: Vector3,
    /// How many samples a pixel gets.
    pub samples: usize,
}

/// `taken` holds one answer of `sample` for each sample of the pixel at
/// `(x, y)`, in the order of the samples.
pub open spec fn sampled<FS: Fn(u32, u32, usize) -> Color3>(
    sample: FS,
    x: u32,
    y: u32,
    taken: Seq<Color3>,
) -> bool {
    forall|k: int|
        0 <= k < taken.len() ==> call_ensures(sample, (x, y, k as usize), #[trigger] taken[k])
}

/// `color` is what `mean` makes of the samples that `sample` gives for the
/// pixel at `(x, y)`, `samples` in number.
pub open spec fn pixel_of<FS: Fn(u32, u32, usize) -> Color3, FM: Fn(Vec<Color3>) -> Color3>(
    samples: usize,
    sample: FS,
    mean: FM,
    x: u32,
    y: u32,
    color: Color3,
) -> bool {
    exists|taken: Vec<Color3>| #[trigger]
        call_ensures(mean, (taken,), color) && taken@.len() == samples && sampled(
            sample,
            x,
            y,
            taken@,
        )
}

impl Camera {
    /// A pixel has at least one sample.
    pub open spec fn wf(self) -> bool {
        self.samples > 0
    }

    /// The lens is a point: its opening angle is zero or less.
    pub open spec fn pinhole(self) -> bool {
        self.defocus_angle.at_most(Scalar { bits: ZERO_BITS })
    }

    /// `canvas` is a picture taken with this camera: every cell of the grid
    /// is painted with what `mean` makes of the cell's samples, and nothing
    /// outside the grid is painted.
    pub open spec fn took<FS: Fn(u32, u32, usize) -> Color3, FM: Fn(Vec<Color3>) -> Color3>(
        self,
        canvas: Canvas,
        sample: FS,
        mean: FM,
    ) -> bool {
        &&& canvas.width() == self.image_width
        &&& canvas.height() == self.image_height
        &&& forall|x: u32, y: u32|
            if x < self.image_width && y < self.image_height {
                #[trigger] canvas.painted().contains_key((x, y)) && pixel_of(
                    self.samples,
                    sample,
                    mean,
                    x,
                    y,
                    canvas.painted()[(x, y)],
                )
            } else {
                !canvas.painted().contains_key((x, y))
            }
    }

    /// A camera from its parts. A pixel has at least one sample.
    pub fn new(
        image_width: u32,
        image_height: u32,
        camera_center: Point3,
        pixel_00: Point3,
        pixel_delta_u: Vector3,
        pixel_delta_v: Vector3,
        defocus_angle: Scalar,
        defocus_disk_u: Vector3,
        defocus_disk_v: Vector3,
        samples: usize,
    ) -> (camera: Camera)
        requires
            samples > 0,
        ensures
            camera == (Camera {
                image_height,
                image_width,
                camera_center,
                pixel_delta_u,
                pixel_delta_v,
                pixel_00,
                defocus_angle,
                defocus_disk_u,
                defocus_disk_v,
                samples,
            }),
            camera.wf(),
    {
        Camera {
            image_height,
            image_width,
            camera_center,
            pixel_delta_u,
            pixel_delta_v,
            pixel_00,
            defocus_angle,
            defocus_disk_u,
            defocus_disk_v,
            samples,
        }
    }

    /// Whether the camera is in working order.
    pub fn is_valid(&self) -> (yes: bool)
        ensures
            yes == self.wf(),
    {
        self.samples > 0
    }

    /// Whether every ray starts at the eye itself (`true`) or at a point
    /// drawn from the disk of the lens.
    pub fn is_pinhole(&self) -> (yes: bool)
        ensures
            yes == self.pinhole(),
    {
        self.defocus_angle.less_eq(Scalar { bits: ZERO_BITS })
    }

    /// The colour of the pixel in column `i` of row `j`: asks `sample` for
    /// the pixel's sample 0, then sample 1, and so on up to the number of
    /// samples, and hands the answers in that order to `mean`.
    pub fn draw_pixel<FS: Fn(u32, u32, usize) -> Color3, FM: Fn(Vec<Color3>) -> Color3>(
        &self,
        i: u32,
        j: u32,
        sample: &FS,
        mean: &FM,
    ) -> (color: Color3)
        requires
            self.wf(),
            forall|k: usize| k < self.samples ==> call_requires(*sample, (i, j, k)),
            forall|taken: Vec<Color3>|
                taken@.len() == self.samples ==> call_requires(*mean, (taken,)),
        ensures
            pixel_of(self.samples, *sample, *mean, i, j, color),
    {
        let mut taken: Vec<Color3> = Vec::new();
        let mut k: usize = 0;
        while k < self.samples
            invariant
                k <= self.samples,
                taken@.len() == k,
                forall|k: usize| k < self.samples ==> call_requires(*sample, (i, j, k)),
                sampled(*sample, i, j, taken@),
            decreases self.samples - k,
        {
            let color = sample(i, j, k);
            taken.push(color);
            k += 1;
        }
        let color = mean(taken);
        assert(call_ensures(*mean, (taken,), color));
        color
    }

    /// Takes the picture: goes through the grid column after column and down
    /// each column, and paints every cell with the colour of its pixel.
    pub fn draw<FS: Fn(u32, u32, usize) -> Color3, FM: Fn(Vec<Color3>) -> Color3>(
        &self,
        sample: FS,
        mean: FM,
    ) -> (canvas: Canvas)
        requires
            self.wf(),
            forall|x: u32, y: u32, k: usize|
                x < self.image_width && y < self.image_height && k < self.samples
                    ==> call_requires(sample, (x, y, k)),
            forall|taken: Vec<Color3>|
                taken@.len() == self.samples ==> call_requires(mean, (taken,)),
        ensures
            self.took(canvas, sample, mean),
            canvas.background() == black(),
    {
        let width = self.image_width;
        let height = self.image_height;
        let mut canvas = Canvas::new(width, height);
        let mut i: u32 = 0;
        while i < width
            invariant
                i <= width,
                width == self.image_width,
                height == self.image_height,
                self.wf(),
                canvas.width() == width,
                canvas.height() == height,
                canvas.background() == black(),
                forall|x: u32, y: u32, k: usize|
                    x < self.image_width && y < self.image_height && k < self.samples
                        ==> call_requires(sample, (x, y, k)),
                forall|taken: Vec<Color3>|
                    taken@.len() == self.samples ==> call_requires(mean, (taken,)),
                forall|x: u32, y: u32|
                    if x < i && y < height {
                        #[trigger] canvas.painted().contains_key((x, y)) && pixel_of(
                            self.samples,
                            sample,
                            mean,
                            x,
                            y,
                            canvas.painted()[(x, y)],
                        )
                    } else {
                        !canvas.painted().contains_key((x, y))
                    },
            decreases width - i,
        {
            let mut j: u32 = 0;
            while j < height
                invariant
                    i < width,
                    j <= height,
                    width == self.image_width,
                    height == self.image_height,
                    self.wf(),
                    canvas.width() == width,
                    canvas.height() == height,
                    canvas.background() == black(),
                    forall|x: u32, y: u32, k: usize|
                        x < self.image_width && y < self.image_height && k < self.samples
                            ==> call_requires(sample, (x, y, k)),
                    forall|taken: Vec<Color3>|
                        taken@.len() == self.samples ==> call_requires(mean, (taken,)),
                    forall|x: u32, y: u32|
                        if (x < i && y < height) || (x == i && y < j) {
                            #[trigger] canvas.painted().contains_key((x, y)) && pixel_of(
                                self.samples,
                                sample,
                                mean,
                                x,
                                y,
                                canvas.painted()[(x, y)],
                            )
                        } else {
                            !canvas.painted().contains_key((x, y))
                        },
                decreases height - j,
            {
                let color = self.draw_pixel(i, j, &sample, &mean);
                canvas.put_pixel(i, j, color);
                j += 1;
            }
            i += 1;
        }
        canvas
    }
}

} // verus!
