use vstd::prelude::*;

verus! {

/// A colour in RGB form: red, green and blue channels.
pub type Rgb = [u8; 3];

/// An XYZ image.
#[derive(Clone, Debug)]
pub struct Image {
    /// Image width in pixels.
    pub width: u16,
    /// Image height in pixels.
    pub height: u16,
    /// The colours that pixels refer to by index.
    pub palette: [Rgb; 256],
    /// One palette index per pixel, row by row. Holds `width * height` bytes.
    pub buffer: Vec<u8>,
}

/// The mathematical value of an [`Image`].
pub ghost struct ImageView {
    pub width: u16,
    pub height: u16,
    pub palette: Seq<Rgb>,
    pub buffer: Seq<u8>,
}

impl View for Image {
    type V = ImageView;

    open spec fn view(&self) -> ImageView {
        ImageView {
            width: self.width,
            height: self.height,
            palette: self.palette@,
            buffer: self.buffer@,
        }
    }
}

impl ImageView {
    /// Number of pixels that the dimensions call for.
    pub open spec fn pixel_count(self) -> nat {
        (self.width as nat) * (self.height as nat)
    }

    /// The palette holds 256 colours and the buffer one byte per pixel.
    pub open spec fn well_formed(self) -> bool {
        &&& self.palette.len() == 256
        &&& self.buffer.len() == self.pixel_count()
    }

    /// Each pixel index replaced by the three channels of its colour.
    pub open spec fn rgb(self) -> Seq<u8> {
        Seq::new(
            3 * self.buffer.len(),
            |k: int| self.palette[self.buffer[k / 3] as int][k % 3],
        )
    }
}

impl Image {
    /// Converts the image to a raw RGB buffer: three bytes per pixel, in
    /// the order of `buffer`.
    pub fn to_rgb_buffer(&self) -> (r: Vec<u8>)
        requires
            3 * self.buffer@.len() <= usize::MAX,
        ensures
            r@ == self@.rgb(),
            self@.well_formed() ==> r@.len() == 3 * self@.pixel_count(),
    {
        let n = self.buffer.len();
        let mut out: Vec<u8> = Vec::with_capacity(3 * n);
        let mut i: usize = 0;
        while i < n
            invariant
                n == self.buffer@.len(),
                3 * n <= usize::MAX,
                i <= n,
                self.palette@.len() == 256,
                out@.len() == 3 * i,
                forall|k: int| 0 <= k < 3 * i ==> out@[k] == #[trigger] self@.rgb()[k],
            decreases n - i,
        {
            let colour: Rgb = self.palette[self.buffer[i] as usize];
            out.push(colour[0]);
            out.push(colour[1]);
            out.push(colour[2]);
            proof {
                assert forall|k: int| 0 <= k < 3 * (i + 1) implies out@[k] == #[trigger] self@.rgb()[k] by {
                    if k >= 3 * i {
                        assert(k / 3 == i);
                    }
                }
            }
            i = i + 1;
        }
        assert(out@ =~= self@.rgb());
        out
    }
}

} // verus!
