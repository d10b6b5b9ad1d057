//! Frames: buffers with a geometry. A frame is a stack of rows, each row a
//! run of pixels followed by padding up to the row stride. A render call on
//! frames transforms the pixels row by row and leaves the padding alone.

use vstd::prelude::*;
use vstd::slice::slice_subrange;
use vstd::slice::slice_to_vec;
use crate::error::ProcessingError;
use crate::format::PixelFormat;
use crate::layout::lemma_chunk_index;
use crate::plugin::Plugin;
use crate::plugin::format_pair_supported;
use crate::plugin::lemma_render_bytes_len;
use crate::plugin::render_bytes;
use crate::plugin::supports_format_pair;

verus! {

/// The geometry and format of one frame buffer.
#[derive(Debug, Clone, Copy, PartialEq, Eq)]
pub struct FrameDescriptor {
    /// Pixels in a row.
    pub width: usize,
    /// Rows in the frame.
    pub height: usize,
    /// Bytes from the start of one row to the start of the next.
    pub row_stride_bytes: usize,
    /// The format of every pixel.
    pub pixel_format: PixelFormat,
}

impl FrameDescriptor {
    /// The bytes that the pixels of one row take.
    pub open spec fn row_len(&self) -> nat {
        self.width as nat * self.pixel_format.pixel_size_spec()
    }

    /// Whether a buffer of `len` bytes is a frame of this geometry: the
    /// pixels of a row lie within the stride, and the buffer is `height`
    /// strides long.
    pub open spec fn describes(&self, len: nat) -> bool {
        self.row_len() <= self.row_stride_bytes && self.height as nat * self.row_stride_bytes as nat
            == len
    }

    /// The pixels of row `y` of a buffer.
    pub open spec fn row(&self, buffer: Seq<u8>, y: int) -> Seq<u8> {
        buffer.subrange(y * self.row_stride_bytes, y * self.row_stride_bytes + self.row_len())
    }

    /// Whether a buffer of `len` bytes is a frame of this geometry.
    pub fn describes_len(&self, len: usize) -> (fits: bool)
        ensures
            fits == self.describes(len as nat),
    {
        let size: usize = self.pixel_format.pixel_size();
        let stride: usize = self.row_stride_bytes;
        let per_row: usize = stride / size;
        proof {
            assert(per_row * size <= stride < per_row * size + size) by (nonlinear_arith)
                requires
                    per_row == stride as int / size as int,
                    size > 0,
            ;
        }
        if self.width > per_row {
            assert(self.width * size >= per_row * size + size) by (nonlinear_arith)
                requires
                    self.width >= per_row + 1,
                    size > 0,
            ;
            return false;
        }
        assert(self.width * size <= per_row * size) by (nonlinear_arith)
            requires
                self.width <= per_row,
                size > 0,
        ;
        if stride == 0 {
            assert(self.height * 0 == 0) by (nonlinear_arith);
            return len == 0;
        }
        let rows: usize = len / stride;
        proof {
            assert(len == rows * stride + len % stride) by (nonlinear_arith)
                requires
                    rows == len as int / stride as int,
                    stride > 0,
            ;
            if self.height != rows {
                assert(self.height * stride != rows * stride + len % stride) by (nonlinear_arith)
                    requires
                        self.height != rows,
                        0 <= len % stride < stride,
                ;
            }
        }
        len % stride == 0 && rows == self.height
    }
}

/// Whether two frames can be rendered into one another: they have the same
/// width and height and each describes its buffer.
pub open spec fn frames_fit(
    in_frame: FrameDescriptor,
    input: Seq<u8>,
    out_frame: FrameDescriptor,
    output: Seq<u8>,
) -> bool {
    &&& in_frame.width == out_frame.width
    &&& in_frame.height == out_frame.height
    &&& in_frame.describes(input.len())
    &&& out_frame.describes(output.len())
}

/// Byte `i` of the output frame after a render call: within the pixels of a
/// row, the byte of the transformed input row at the same place; within the
/// padding, what was there.
pub open spec fn rendered_byte(
    in_frame: FrameDescriptor,
    input: Seq<u8>,
    out_frame: FrameDescriptor,
    output: Seq<u8>,
    i: int,
) -> u8 {
    let y = i / (out_frame.row_stride_bytes as int);
    let c = i % (out_frame.row_stride_bytes as int);
    if c < out_frame.row_len() {
        render_bytes(in_frame.pixel_format, out_frame.pixel_format, in_frame.row(input, y))[c]
    } else {
        output[i]
    }
}

/// The output frame after a render call.
pub open spec fn rendered_frame(
    in_frame: FrameDescriptor,
    input: Seq<u8>,
    out_frame: FrameDescriptor,
    output: Seq<u8>,
) -> Seq<u8> {
    Seq::new(output.len(), |i: int| rendered_byte(in_frame, input, out_frame, output, i))
}

/// What a render call on frames answers and what it leaves in the output
/// buffer: formats are judged first, then the geometry; a refused call
/// leaves the output as it was.
pub open spec fn frame_outcome(
    in_frame: FrameDescriptor,
    input: Seq<u8>,
    out_frame: FrameDescriptor,
    output: Seq<u8>,
) -> (Result<(), ProcessingError>, Seq<u8>) {
    if !format_pair_supported(in_frame.pixel_format, out_frame.pixel_format) {
        (Err(ProcessingError::UnsupportedFormat), output)
    } else if !frames_fit(in_frame, input, out_frame, output) {
        (Err(ProcessingError::InvalidBufferSize), output)
    } else {
        (Ok(()), rendered_frame(in_frame, input, out_frame, output))
    }
}

impl Plugin {
    /// One render call on frames: turns the premultiplied pixels of the
    /// input frame into straight-alpha pixels at the same positions of the
    /// output frame. The two frames may differ in row stride.
    pub fn render(
        &self,
        input_frame: &FrameDescriptor,
        in_buffer: &[u8],
        output_frame: &FrameDescriptor,
        out_buffer: &mut Vec<u8>,
    ) -> (done: Result<(), ProcessingError>)
        ensures
            (done, final(out_buffer)@) == frame_outcome(
                *input_frame,
                in_buffer@,
                *output_frame,
                old(out_buffer)@,
            ),
    {
        let in_format = input_frame.pixel_format;
        let out_format = output_frame.pixel_format;
        if !supports_format_pair(in_format, out_format) {
            return Err(ProcessingError::UnsupportedFormat);
        }
        if input_frame.width != output_frame.width || input_frame.height != output_frame.height
            || !input_frame.describes_len(in_buffer.len()) || !output_frame.describes_len(
            out_buffer.len(),
        ) {
            return Err(ProcessingError::InvalidBufferSize);
        }
        let height: usize = input_frame.height;
        let in_stride: usize = input_frame.row_stride_bytes;
        let out_stride: usize = output_frame.row_stride_bytes;
        let size: usize = in_format.pixel_size();
        proof {
            lemma_render_bytes_len(in_format, out_format, Seq::<u8>::empty());
        }
        let row_len: usize = input_frame.width * size;
        let ghost before = out_buffer@;
        let ghost target = rendered_frame(*input_frame, in_buffer@, *output_frame, before);
        let mut y: usize = 0;
        while y < height
            invariant
                y <= height,
                height == input_frame.height,
                in_stride == input_frame.row_stride_bytes,
                out_stride == output_frame.row_stride_bytes,
                in_format == input_frame.pixel_format,
                out_format == output_frame.pixel_format,
                format_pair_supported(in_format, out_format),
                size == in_format.pixel_size_spec(),
                row_len == input_frame.row_len(),
                row_len == output_frame.row_len(),
                row_len <= in_stride,
                row_len <= out_stride,
                in_buffer@.len() == height * in_stride,
                in_buffer@.len() <= usize::MAX,
                before.len() == height * out_stride,
                before.len() <= usize::MAX,
                out_buffer@.len() == before.len(),
                target == rendered_frame(*input_frame, in_buffer@, *output_frame, before),
                target.len() == before.len(),
                forall|i: int| 0 <= i < y * out_stride ==> out_buffer@[i] == target[i],
                forall|i: int| y * out_stride <= i < before.len() ==> out_buffer@[i] == before[i],
            decreases height - y,
        {
            proof {
                assert(y * in_stride + in_stride <= height * in_stride) by (nonlinear_arith)
                    requires
                        y < height,
                        0 <= in_stride,
                ;
                assert(y * out_stride + out_stride <= height * out_stride) by (nonlinear_arith)
                    requires
                        y < height,
                        0 <= out_stride,
                ;
                assert(0 <= y * in_stride && 0 <= y * out_stride) by (nonlinear_arith)
                    requires
                        0 <= y,
                        0 <= in_stride,
                        0 <= out_stride,
                ;
                assert((input_frame.width * size) % (size as int) == 0) by (nonlinear_arith)
                    requires
                        size > 0,
                ;
            }
            let in_start: usize = y * in_stride;
            let out_start: usize = y * out_stride;
            let row_in: &[u8] = slice_subrange(in_buffer, in_start, in_start + row_len);
            let mut row_out: Vec<u8> = slice_to_vec(row_in);
            proof {
                assert(row_in@ == input_frame.row(in_buffer@, y as int));
                lemma_render_bytes_len(in_format, out_format, row_in@);
            }
            match self.do_render(in_format, out_format, row_in, &mut row_out) {
                Ok(()) => {},
                Err(e) => {
                    return Err(e);
                },
            }
            let mut c: usize = 0;
            while c < row_len
                invariant
                    c <= row_len,
                    row_out@.len() == row_len,
                    out_start + row_len <= before.len(),
                    before.len() <= usize::MAX,
                    out_buffer@.len() == before.len(),
                    target.len() == before.len(),
                    forall|i: int| 0 <= i < out_start ==> out_buffer@[i] == target[i],
                    forall|k: int| 0 <= k < c ==> out_buffer@[out_start + k] == row_out@[k],
                    forall|i: int| out_start + c <= i < before.len() ==> out_buffer@[i] == before[i],
                decreases row_len - c,
            {
                out_buffer[out_start + c] = row_out[c];
                c = c + 1;
            }
            proof {
                assert((y + 1) * out_stride == y * out_stride + out_stride) by (nonlinear_arith);
                assert forall|i: int| 0 <= i < (y + 1) * out_stride implies out_buffer@[i]
                    == target[i] by {
                    if i >= out_start {
                        let k = i - out_start;
                        lemma_chunk_index(y as int, k, out_stride as int);
                    }
                }
            }
            y = y + 1;
        }
        proof {
            assert(out_buffer@ =~= target);
        }
        Ok(())
    }
}

} // verus!
