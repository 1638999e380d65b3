//! Image dimensions and the text header of the output format.
//!
//! The output is ASCII PPM: the header `P3\n<width> <height>\n255\n`,
//! then one `"<r> <g> <b>"` line per pixel in row-major order.  Writing
//! the lines to a file is the caller's concern; this module produces
//! exactly the text.

use vstd::prelude::*;
use crate::decimal::{dec_spec, dec_string};

verus! {

#[derive(Clone, Copy, Debug, PartialEq, Eq, Structural)]
pub struct Image {
    pub width: u32,
    pub height: u32,
    pub aspect_ratio: i64,
}

pub open spec fn image_wf(img: Image) -> bool {
    &&& 16 <= img.width <= 4096
    &&& 8192 <= img.aspect_ratio <= 262144
    &&& img.height == (img.width * 65536) as int / (img.aspect_ratio as int)
    &&& 1 <= img.height <= 32768
}

/// The PPM header: magic number, dimensions, maximum channel value.
pub open spec fn header_spec(w: nat, h: nat) -> Seq<char> {
    seq!['P', '3', '\n'] + dec_spec(w) + seq![' '] + dec_spec(h) + seq!['\n', '2', '5', '5', '\n']
}

impl Image {
    pub fn new(width: u32, aspect_ratio: i64) -> (r: Image)
        requires
            16 <= width <= 4096,
            8192 <= aspect_ratio <= 262144,
        ensures
            r == (Image {
                width,
                height: ((width as int * 65536) / (aspect_ratio as int)) as u32,
                aspect_ratio,
            }),
            image_wf(r),
            r.height >= 1,
    {
        let height: u32 = ((width as u64 * 65536) / (aspect_ratio as u64)) as u32;
        proof {
            crate::fixed::lemma_div_upper(width as int * 65536, aspect_ratio as int, 32768);
            crate::fixed::lemma_div_lower_bound(width as int * 65536, aspect_ratio as int, 1);
        }
        Image { width, height, aspect_ratio }
    }

    /// The exact header text for this image.
    pub fn generate_header(&self) -> (s: String)
        ensures
            s@ == header_spec(self.width as nat, self.height as nat),
    {
        proof {
            reveal_strlit("P3\n");
            reveal_strlit(" ");
            reveal_strlit("\n255\n");
        }
        let mut s = String::from_str("P3\n");
        let ws = dec_string(self.width);
        s.append(ws.as_str());
        s.append(" ");
        let hs = dec_string(self.height);
        s.append(hs.as_str());
        s.append("\n255\n");
        proof {
            assert(s@ =~= header_spec(self.width as nat, self.height as nat));
        }
        s
    }
}

} // verus!
