use vstd::prelude::*;

verus! {

/// One pixel's 8-bit colour.
#[derive(Clone, Copy, Debug, PartialEq, Eq)]
pub struct Rgba {
    pub r: u8,
    pub g: u8,
    pub b: u8,
}

impl Rgba {
    pub fn new(r: u8, g: u8, b: u8) -> (c: Rgba)
        ensures
            c == (Rgba { r, g, b }),
    {
        Rgba { r, g, b }
    }
}

/// A raster of `width` by `height` pixels, in row-major order, top row first.
pub struct Image {
    pub width: u32,
    pub height: u32,
    pub data: Vec<Rgba>,
}

impl Image {
    /// Exactly one pixel per place of the raster.
    pub open spec fn wf(&self) -> bool {
        self.data@.len() == self.width * self.height
    }

    /// The pixel in column `col` and row `row`, rows counted from the bottom
    /// as the camera's viewport counts them.
    pub open spec fn pixel(&self, col: int, row: int) -> Rgba {
        self.data@[(self.height - 1 - row) * self.width + col]
    }
}

/// Why a render was refused.
#[derive(Clone, Copy, Debug, PartialEq, Eq)]
pub enum RenderError {
    /// A pixel's estimate needs at least one sample.
    NoSamples,
}

/// The entry of a row-major raster at row `top_row` (from the top) and column `col`.
pub open spec fn raster_at(data: Seq<Rgba>, width: int, top_row: int, col: int) -> Rgba {
    data[top_row * width + col]
}

proof fn lemma_raster_index(top_row: int, col: int, rows: int, width: int)
    requires
        0 <= top_row < rows,
        0 <= col < width,
    ensures
        0 <= top_row * width + col < rows * width,
{
    assert(top_row * width + col < rows * width) by (nonlinear_arith)
        requires
            0 <= top_row < rows,
            0 <= col < width,
    ;
    assert(0 <= top_row * width) by (nonlinear_arith)
        requires
            0 <= top_row,
            0 <= col < width,
    ;
}

/// Renders a `width` by `height` image: each pixel is the estimate that
/// `shade` makes from `samples_per_pixel` samples, given its column and its
/// row counted from the bottom. Pixels are produced row by row, top row
/// first, left to right. Zero samples per pixel is refused.
pub fn render<F>(width: u32, height: u32, samples_per_pixel: u32, shade: &F) -> (r: Result<Image, RenderError>)
    where
        F: Fn(u32, u32, u32) -> Rgba,
    requires
        forall|col: u32, row: u32|
            col < width && row < height ==> shade.requires((col, row, samples_per_pixel)),
    ensures
        r is Err <==> samples_per_pixel == 0,
        r is Err ==> r == Err::<Image, RenderError>(RenderError::NoSamples),
        r matches Ok(img) ==> {
            &&& img.width == width
            &&& img.height == height
            &&& img.wf()
            &&& forall|col: u32, row: u32|
                col < width && row < height ==> shade.ensures(
                    (col, row, samples_per_pixel),
                    #[trigger] img.pixel(col as int, row as int),
                )
        },
{
    if samples_per_pixel == 0 {
        return Err(RenderError::NoSamples);
    }
    let mut data: Vec<Rgba> = Vec::new();
    let mut j: u32 = 0;
    while j < height
        invariant
            j <= height,
            data@.len() == j * width,
            forall|col: u32, row: u32|
                col < width && row < height ==> shade.requires((col, row, samples_per_pixel)),
            forall|t: int, c: int|
                0 <= t < j && 0 <= c < width ==> shade.ensures(
                    (c as u32, (height - 1 - t) as u32, samples_per_pixel),
                    #[trigger] raster_at(data@, width as int, t, c),
                ),
        decreases height - j,
    {
        let mut i: u32 = 0;
        while i < width
            invariant
                j < height,
                i <= width,
                data@.len() == j * width + i,
                forall|col: u32, row: u32|
                    col < width && row < height ==> shade.requires((col, row, samples_per_pixel)),
                forall|t: int, c: int|
                    0 <= t < j && 0 <= c < width ==> shade.ensures(
                        (c as u32, (height - 1 - t) as u32, samples_per_pixel),
                        #[trigger] raster_at(data@, width as int, t, c),
                    ),
                forall|c: int|
                    0 <= c < i ==> shade.ensures(
                        (c as u32, (height - 1 - j) as u32, samples_per_pixel),
                        #[trigger] raster_at(data@, width as int, j as int, c),
                    ),
            decreases width - i,
        {
            let px = shade(i, height - 1 - j, samples_per_pixel);
            proof {
                let prev = data@;
                assert forall|t: int, c: int| 0 <= t < j && 0 <= c < width implies
                    #[trigger] raster_at(prev.push(px), width as int, t, c) == raster_at(prev, width as int, t, c) by {
                    lemma_raster_index(t, c, j as int, width as int);
                }
                assert(raster_at(prev.push(px), width as int, j as int, i as int) == px);
                assert forall|c: int| 0 <= c < i implies
                    #[trigger] raster_at(prev.push(px), width as int, j as int, c) == raster_at(prev, width as int, j as int, c) by {
                }
            }
            data.push(px);
            i = i + 1;
        }
        proof {
            assert(data@.len() == (j + 1) * width) by (nonlinear_arith)
                requires
                    data@.len() == j * width + width,
            ;
        }
        j = j + 1;
    }
    let img = Image { width, height, data };
    proof {
        assert(img.data@.len() == width * height) by (nonlinear_arith)
            requires
                img.data@.len() == height * width,
        ;
        assert forall|col: u32, row: u32| col < width && row < height implies shade.ensures(
            (col, row, samples_per_pixel),
            #[trigger] img.pixel(col as int, row as int),
        ) by {
            let t = height - 1 - row;
            assert(raster_at(img.data@, width as int, t, col as int) == img.pixel(col as int, row as int));
            assert((height - 1 - t) as u32 == row);
        }
    }
    Ok(img)
}

} // verus!
