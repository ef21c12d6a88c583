//! The plain-text PPM encoding of an image.
//!
//! The text opens with the magic number, the dimensions and the largest
//! channel value, each on a line of its own. The rows follow from the top of
//! the picture down, which is from the last stored row to the first. A pixel
//! is written as its three channels in decimal, padded with spaces to a cell of
//! fixed width. In a row whose number leaves seven when divided by eight,
//! every cell is followed by a line break; every row ends with one.

use vstd::prelude::*;
use vstd::pervasive::unreached;
use crate::image_buffer::ImageBuffer;
use crate::image_buffer::ImageView;
use crate::image_buffer::Pixel;

verus! {

/// The ASCII space.
pub const SPACE: u8 = 32;

/// The ASCII line feed.
pub const NEWLINE: u8 = 10;

/// The ASCII digit zero.
pub const ZERO: u8 = 48;

/// The ASCII capital letter P.
pub const UPPER_P: u8 = 80;

/// The format's number for colour images written as text.
pub const FORMAT: usize = 3;

/// The largest value of a channel.
pub const MAX_CHANNEL: usize = 255;

/// The number of bytes that one pixel takes in the text.
pub const CELL_WIDTH: usize = 12;

/// The ASCII digit for a value below ten.
pub open spec fn digit(d: nat) -> u8 {
    (ZERO + d) as u8
}

/// A number in decimal, without sign or leading zeros.
pub open spec fn decimal(n: nat) -> Seq<u8>
    decreases n,
{
    if n < 10 {
        seq![digit(n)]
    } else {
        decimal(n / 10).push(digit(n % 10))
    }
}

/// The number that a string of ASCII digits stands for.
pub open spec fn decimal_value(digits: Seq<u8>) -> nat
    decreases digits.len(),
{
    if digits.len() == 0 {
        0
    } else {
        (decimal_value(digits.drop_last()) * 10 + (digits.last() - ZERO)) as nat
    }
}

/// A run of `n` spaces.
pub open spec fn spaces(n: nat) -> Seq<u8> {
    Seq::new(n, |i: int| SPACE)
}

/// The three channels of a pixel, separated by single spaces.
pub open spec fn channels(p: Pixel) -> Seq<u8> {
    decimal(p.r as nat) + seq![SPACE] + decimal(p.g as nat) + seq![SPACE] + decimal(p.b as nat)
}

/// A pixel's channels, padded on the right to the width of a cell.
pub open spec fn cell(p: Pixel) -> Seq<u8> {
    channels(p) + spaces((CELL_WIDTH - channels(p).len()) as nat)
}

/// What the pixel at column `x` of row `y` contributes to the text.
pub open spec fn entry(img: ImageView, x: int, y: int) -> Seq<u8> {
    if y % 8 == 7 {
        cell(img.pixel_at(x, y)).push(NEWLINE)
    } else {
        cell(img.pixel_at(x, y))
    }
}

/// The entries of the first `n` columns of row `y`.
pub open spec fn row_prefix(img: ImageView, y: int, n: nat) -> Seq<u8>
    decreases n,
{
    if n == 0 {
        Seq::empty()
    } else {
        row_prefix(img, y, (n - 1) as nat) + entry(img, n - 1, y)
    }
}

/// Row `y` of the image as one line of the text, or several.
pub open spec fn row(img: ImageView, y: int) -> Seq<u8> {
    row_prefix(img, y, img.width).push(NEWLINE)
}

/// The first `n` rows of the text: the last `n` rows of the image, last row first.
pub open spec fn rows_prefix(img: ImageView, n: nat) -> Seq<u8>
    decreases n,
{
    if n == 0 {
        Seq::empty()
    } else {
        rows_prefix(img, (n - 1) as nat) + row(img, img.height - n)
    }
}

/// Three lines: the letter P with the number of the format, the width and
/// the height, and the largest channel value.
pub open spec fn header(img: ImageView) -> Seq<u8> {
    seq![UPPER_P] + decimal(FORMAT as nat) + seq![NEWLINE] + decimal(img.width) + seq![SPACE]
        + decimal(img.height) + seq![NEWLINE] + decimal(MAX_CHANNEL as nat) + seq![NEWLINE]
}

/// The whole text of an image.
pub open spec fn ppm_text(img: ImageView) -> Seq<u8> {
    header(img) + rows_prefix(img, img.height)
}

/// What is written for a number is made of digits, starts with a zero only
/// for zero itself, and reads back as the number.
pub proof fn lemma_decimal_reads_back(n: nat)
    ensures
        decimal(n).len() >= 1,
        forall|i: int| 0 <= i < decimal(n).len() ==> ZERO <= #[trigger] decimal(n)[i] <= ZERO + 9,
        decimal(n)[0] == ZERO <==> n == 0,
        decimal_value(decimal(n)) == n,
    decreases n,
{
    let digits = decimal(n);
    if n < 10 {
        assert(digits.drop_last() =~= Seq::<u8>::empty());
        assert(decimal_value(digits.drop_last()) == 0);
    } else {
        lemma_decimal_reads_back(n / 10);
        assert(digits.drop_last() =~= decimal(n / 10));
    }
    assert(digits.last() == digit(n % 10));
    assert(decimal_value(digits) == decimal_value(digits.drop_last()) * 10 + (digits.last()
        - ZERO));
}

/// A number has as many decimal digits as its size asks for: one below 10,
/// two below 100, three below 1000.
pub proof fn lemma_decimal_len(n: nat)
    requires
        n < 1000,
    ensures
        decimal(n).len() == if n < 10 {
            1nat
        } else if n < 100 {
            2nat
        } else {
            3nat
        },
{
    reveal_with_fuel(decimal, 3);
}

/// Every pixel fills exactly one cell.
pub proof fn lemma_cell_len(p: Pixel)
    ensures
        1 <= channels(p).len() < CELL_WIDTH,
        cell(p).len() == CELL_WIDTH,
{
    lemma_decimal_len(p.r as nat);
    lemma_decimal_len(p.g as nat);
    lemma_decimal_len(p.b as nat);
}

/// The number of bytes that each pixel of row `y` takes: a cell, and a line
/// break more where the row's number leaves seven when divided by eight.
pub open spec fn entry_len(y: int) -> nat {
    if y % 8 == 7 {
        (CELL_WIDTH + 1) as nat
    } else {
        CELL_WIDTH as nat
    }
}

/// A row takes the same number of bytes for each of its pixels, and one
/// more for the line break at its end.
pub proof fn lemma_row_len(img: ImageView, y: int)
    ensures
        row(img, y).len() == img.width * entry_len(y) + 1,
{
    lemma_row_prefix_len(img, y, img.width);
}

proof fn lemma_row_prefix_len(img: ImageView, y: int, n: nat)
    ensures
        row_prefix(img, y, n).len() == n * entry_len(y),
    decreases n,
{
    let each = entry_len(y);
    if n == 0 {
        assert(n * each == 0) by (nonlinear_arith)
            requires
                n == 0,
        ;
    } else {
        lemma_row_prefix_len(img, y, (n - 1) as nat);
        lemma_cell_len(img.pixel_at(n - 1, y));
        assert(n * each == (n - 1) * each + each) by (nonlinear_arith);
    }
}

/// Appends `n` in decimal.
fn push_decimal(out: &mut Vec<u8>, n: usize)
    ensures
        final(out)@ == old(out)@ + decimal(n as nat),
    decreases n,
{
    if n >= 10 {
        push_decimal(out, n / 10);
    }
    let d: u8 = (n % 10) as u8;
    out.push(ZERO + d);
}

/// Appends the cell of one pixel.
fn push_cell(out: &mut Vec<u8>, p: Pixel)
    ensures
        final(out)@ == old(out)@ + cell(p),
{
    let start = out.len();
    push_decimal(out, p.r as usize);
    out.push(SPACE);
    push_decimal(out, p.g as usize);
    out.push(SPACE);
    push_decimal(out, p.b as usize);
    proof {
        lemma_cell_len(p);
    }
    let written = out.len() - start;
    let mut padding: usize = CELL_WIDTH - written;
    let ghost target = (CELL_WIDTH - channels(p).len()) as nat;
    while padding > 0
        invariant
            padding <= target,
            out@ == old(out)@ + channels(p) + spaces((target - padding) as nat),
        decreases padding,
    {
        out.push(SPACE);
        padding = padding - 1;
    }
}

impl ImageBuffer {
    /// The image as PPM text.
    pub fn to_ppm(&self) -> (bytes: Vec<u8>)
        ensures
            bytes@ == ppm_text(self@),
    {
        let w = self.width();
        let h = self.height();
        let mut out: Vec<u8> = Vec::new();
        out.push(UPPER_P);
        push_decimal(&mut out, FORMAT);
        out.push(NEWLINE);
        push_decimal(&mut out, w);
        out.push(SPACE);
        push_decimal(&mut out, h);
        out.push(NEWLINE);
        push_decimal(&mut out, MAX_CHANNEL);
        out.push(NEWLINE);
        let mut done: usize = 0;
        while done < h
            invariant
                w == self@.width,
                h == self@.height,
                done <= h,
                out@ == header(self@) + rows_prefix(self@, done as nat),
            decreases h - done,
        {
            let y = h - done - 1;
            let mut x: usize = 0;
            while x < w
                invariant
                    w == self@.width,
                    h == self@.height,
                    y < h,
                    x <= w,
                    out@ == header(self@) + rows_prefix(self@, done as nat) + row_prefix(
                        self@,
                        y as int,
                        x as nat,
                    ),
                decreases w - x,
            {
                let pixel = match self.get_pixel(x, y) {
                    Ok(p) => p,
                    Err(_) => unreached(),
                };
                push_cell(&mut out, pixel);
                if y % 8 == 7 {
                    out.push(NEWLINE);
                }
                x = x + 1;
            }
            out.push(NEWLINE);
            done = done + 1;
        }
        out
    }
}

} // verus!
