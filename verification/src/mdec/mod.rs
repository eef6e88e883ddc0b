//! Motion Decoder (sometimes called macroblock or movie decoder).

use vstd::prelude::*;

use crate::memory::{Addressable, access_bytes};
use crate::shared::SharedState;

verus! {

/// Convert `val` into a signed 10 bit value
pub open spec fn spec_to_10bit_signed(val: u16) -> i16 {
    ((val << 6u16) as i16) >> 6u16
}

/// Convert `val` into a signed 10 bit value
pub fn to_10bit_signed(val: u16) -> (r: i16)
    ensures
        r == spec_to_10bit_signed(val),
        -512 <= r <= 511,
{
    let r = ((val << 6) as i16) >> 6;
    proof {
        lemma_mdec_bits(val, 0, 0, 0);
    }
    r
}

/// Saturate a quantized coefficient into [-0x4000, 0x3fff]
pub open spec fn saturate_coeff(c: i32) -> i16 {
    if c > 0x3fff {
        0x3fff
    } else if c < -0x4000 {
        -0x4000i16
    } else {
        c as i16
    }
}

/// Quantization function for the macroblock coefficients. For the DC
/// coeffs `qscale` is None.
pub open spec fn spec_quantize(coef: u16, quantization: u8, qscale: Option<u8>) -> i16 {
    if coef == 0 {
        0
    } else {
        let c = spec_to_10bit_signed(coef);
        let (qs, qshift): (u8, u32) = match qscale {
            Some(qs) => (qs, 3),
            None => (1, 0),
        };
        let q = (quantization as i32) * (qs as i32);
        let v: i32 = if q == 0 {
            ((c as int) * 32) as i32
        } else {
            let p: i32 = ((c as int) * q) as i32;
            let s: i32 = p >> qshift;
            let t: i32 = (s as int * 16) as i32;
            if t < 0 {
                (t + 8) as i32
            } else {
                (t - 8) as i32
            }
        };
        saturate_coeff(v)
    }
}

/// Quantization function for the macroblock coefficients. For the DC
/// coeffs qscale should be None.
pub fn quantize(coef: u16, quantization: u8, qscale: Option<u8>) -> (r: i16)
    ensures
        r == spec_quantize(coef, quantization, qscale),
{
    if coef == 0 {
        0
    } else {
        let c = to_10bit_signed(coef);
        let (qscale, qshift): (u8, u32) = match qscale {
            Some(qs) => (qs, 3),
            // DC doesn't use the qscale value and does not require
            // right shifting after the multiplication.
            None => (1, 0),
        };
        assert(0 <= (quantization as i32) * (qscale as i32) <= 65025) by (nonlinear_arith);
        let q = quantization as i32 * qscale as i32;
        let c: i32 = if q == 0 {
            (c as i32) * 32
        } else {
            let c = c as i32;
            assert(-512 * 65025 <= c * q <= 511 * 65025) by (nonlinear_arith)
                requires
                    -512 <= c <= 511,
                    0 <= q <= 65025,
            ;
            let p = c * q;
            let c = p >> qshift;
            assert(-33292800 <= c <= 33227775) by {
                lemma_mdec_bits(0, p, qshift, 0);
            }
            let c = c * 16;
            // This is from mednafen, not sure why this is
            // needed.
            if c < 0 {
                c + 8
            } else {
                c - 8
            }
        };
        // Saturate
        if c > 0x3fff {
            0x3fff
        } else if c < -0x4000 {
            -0x4000
        } else {
            c as i16
        }
    }
}

/// RLE-encoded values are encoded using a "zigzag" pattern in order
/// to maximise the number of consecutive zeroes: position of the
/// `pos`th coefficient in the block
pub open spec fn zigzag() -> Seq<u8> {
    seq![
        0x00u8, 0x01u8, 0x08u8, 0x10u8, 0x09u8, 0x02u8, 0x03u8, 0x0au8,
        0x11u8, 0x18u8, 0x20u8, 0x19u8, 0x12u8, 0x0bu8, 0x04u8, 0x05u8,
        0x0cu8, 0x13u8, 0x1au8, 0x21u8, 0x28u8, 0x30u8, 0x29u8, 0x22u8,
        0x1bu8, 0x14u8, 0x0du8, 0x06u8, 0x07u8, 0x0eu8, 0x15u8, 0x1cu8,
        0x23u8, 0x2au8, 0x31u8, 0x38u8, 0x39u8, 0x32u8, 0x2bu8, 0x24u8,
        0x1du8, 0x16u8, 0x0fu8, 0x17u8, 0x1eu8, 0x25u8, 0x2cu8, 0x33u8,
        0x3au8, 0x3bu8, 0x34u8, 0x2du8, 0x26u8, 0x1fu8, 0x27u8, 0x2eu8,
        0x35u8, 0x3cu8, 0x3du8, 0x36u8, 0x2fu8, 0x37u8, 0x3eu8, 0x3fu8,
    ]
}

/// Coefficients during macroblock decoding
#[derive(Clone, PartialEq, Debug)]
pub struct MacroblockCoeffs(Vec<i16>);

/// Decoded 8x8 macroblock
#[derive(Clone, PartialEq, Debug)]
pub struct Macroblock(Vec<i8>);

/// Quantization matrix: 8x8 bytes
#[derive(Clone, PartialEq, Debug)]
pub struct QuantMatrix(Vec<u8>);

/// Inverse discrete cosine transform matrix
#[derive(Clone, PartialEq, Debug)]
pub struct IdctMatrix(Vec<i16>);

impl MacroblockCoeffs {
    pub closed spec fn view(&self) -> Seq<i16> {
        self.0@
    }

    pub fn new() -> (m: MacroblockCoeffs)
        ensures
            m.view() == Seq::new(64, |i: int| 0i16),
    {
        let mut v: Vec<i16> = Vec::new();
        let mut i: usize = 0;
        while i < 64
            invariant
                i <= 64,
                v@ == Seq::new(i as nat, |j: int| 0i16),
            decreases 64 - i,
        {
            v.push(0);
            i += 1;
            assert(v@ =~= Seq::new(i as nat, |j: int| 0i16));
        }
        MacroblockCoeffs(v)
    }

    pub fn from_array(a: [i16; 64]) -> (m: MacroblockCoeffs)
        ensures
            m.view() == a@,
    {
        MacroblockCoeffs(array_to_vec_i16(a))
    }

    /// Store `coeff` at the position of the `pos`th coefficient in
    /// zigzag order
    pub fn set_zigzag(&mut self, pos: u8, coeff: i16)
        requires
            old(self).view().len() == 64,
            pos < 64,
        ensures
            final(self).view() == old(self).view().update(zigzag()[pos as int] as int, coeff),
    {
        // Zigzag LUT
        let zigzag: [u8; 64] = [
        0x00, 0x01, 0x08, 0x10, 0x09, 0x02, 0x03, 0x0a,
        0x11, 0x18, 0x20, 0x19, 0x12, 0x0b, 0x04, 0x05,
        0x0c, 0x13, 0x1a, 0x21, 0x28, 0x30, 0x29, 0x22,
        0x1b, 0x14, 0x0d, 0x06, 0x07, 0x0e, 0x15, 0x1c,
        0x23, 0x2a, 0x31, 0x38, 0x39, 0x32, 0x2b, 0x24,
        0x1d, 0x16, 0x0f, 0x17, 0x1e, 0x25, 0x2c, 0x33,
        0x3a, 0x3b, 0x34, 0x2d, 0x26, 0x1f, 0x27, 0x2e,
        0x35, 0x3c, 0x3d, 0x36, 0x2f, 0x37, 0x3e, 0x3f,
        ];
        assert(zigzag@ =~= self::zigzag());
        let index = zigzag[pos as usize];
        assert(index < 64) by {
            assert(forall|i: int| 0 <= i < 64 ==> #[trigger] self::zigzag()[i] < 64);
        }
        self.0.set(index as usize, coeff);
    }
}

impl Macroblock {
    pub closed spec fn view(&self) -> Seq<i8> {
        self.0@
    }

    pub fn new() -> (m: Macroblock)
        ensures
            m.view() == Seq::new(64, |i: int| 0i8),
    {
        let mut v: Vec<i8> = Vec::new();
        let mut i: usize = 0;
        while i < 64
            invariant
                i <= 64,
                v@ == Seq::new(i as nat, |j: int| 0i8),
            decreases 64 - i,
        {
            v.push(0);
            i += 1;
            assert(v@ =~= Seq::new(i as nat, |j: int| 0i8));
        }
        Macroblock(v)
    }

    pub fn from_array(a: [i8; 64]) -> (m: Macroblock)
        ensures
            m.view() == a@,
    {
        let mut v: Vec<i8> = Vec::new();
        let mut i: usize = 0;
        while i < 64
            invariant
                i <= 64,
                v@ == a@.subrange(0, i as int),
            decreases 64 - i,
        {
            v.push(a[i]);
            i += 1;
            assert(v@ =~= a@.subrange(0, i as int));
        }
        assert(a@.subrange(0, 64) =~= a@);
        Macroblock(v)
    }
}

impl QuantMatrix {
    pub closed spec fn view(&self) -> Seq<u8> {
        self.0@
    }

    pub fn new() -> (m: QuantMatrix)
        ensures
            m.view() == Seq::new(64, |i: int| 0u8),
    {
        let mut v: Vec<u8> = Vec::new();
        let mut i: usize = 0;
        while i < 64
            invariant
                i <= 64,
                v@ == Seq::new(i as nat, |j: int| 0u8),
            decreases 64 - i,
        {
            v.push(0);
            i += 1;
            assert(v@ =~= Seq::new(i as nat, |j: int| 0u8));
        }
        QuantMatrix(v)
    }
}

impl IdctMatrix {
    pub closed spec fn view(&self) -> Seq<i16> {
        self.0@
    }

    pub fn new() -> (m: IdctMatrix)
        ensures
            m.view() == Seq::new(64, |i: int| 0i16),
    {
        IdctMatrix(MacroblockCoeffs::new().0)
    }

    pub fn from_array(a: [i16; 64]) -> (m: IdctMatrix)
        ensures
            m.view() == a@,
    {
        IdctMatrix(array_to_vec_i16(a))
    }
}

fn array_to_vec_i16(a: [i16; 64]) -> (v: Vec<i16>)
    ensures
        v@ == a@,
{
    let mut v: Vec<i16> = Vec::new();
    let mut i: usize = 0;
    while i < 64
        invariant
            i <= 64,
            v@ == a@.subrange(0, i as int),
        decreases 64 - i,
    {
        v.push(a[i]);
        i += 1;
        assert(v@ =~= a@.subrange(0, i as int));
    }
    assert(a@.subrange(0, 64) =~= a@);
    v
}

/// Sum of the first `n` products of row `row` of `a` with column
/// `col` of `b` (8x8 matrices)
pub open spec fn dot8(a: Seq<i16>, b: Seq<i16>, row: int, col: int, n: nat) -> int
    decreases n,
{
    if n == 0 {
        0
    } else {
        dot8(a, b, row, col, (n - 1) as nat) + (a[row * 8 + n - 1] as int) * (b[(n - 1) * 8
            + col] as int)
    }
}

/// Fixed point rounding of a product sum
pub open spec fn round15(sum: int) -> i64 {
    ((sum + 0x4000) as i64) >> 15u64
}

/// Sign extend the low 9 bits of `v`
pub open spec fn sext9(v: i64) -> i16 {
    (((v as u16) << 7u16) as i16) >> 7u16
}

/// Saturate into a signed byte
pub open spec fn sat8(v: i16) -> i8 {
    if v < -128 {
        -128i8
    } else if v > 127 {
        127i8
    } else {
        v as i8
    }
}

/// First IDCT pass: the product of the coefficients and the matrix,
/// transposed
pub open spec fn idct_pass1(coeffs: Seq<i16>, m: Seq<i16>) -> Seq<i16> {
    Seq::new(64, |k: int| round15(dot8(coeffs, m, k % 8, k / 8, 8)) as i16)
}

/// Inverse Discrete Cosine Transform of `coeffs` with matrix `m`
pub open spec fn spec_idct(coeffs: Seq<i16>, m: Seq<i16>) -> Seq<i8> {
    let tmp = idct_pass1(coeffs, m);
    Seq::new(64, |k: int| sat8(sext9(round15(dot8(tmp, m, k / 8, k % 8, 8)))))
}

/// Bound on a partial product sum of 16 bit values
pub proof fn lemma_dot8_bound(a: Seq<i16>, b: Seq<i16>, row: int, col: int, n: nat)
    ensures
        -n * 0x4000_0000 <= dot8(a, b, row, col, n) <= n * 0x4000_0000,
    decreases n,
{
    if n > 0 {
        lemma_dot8_bound(a, b, row, col, (n - 1) as nat);
        let x = a[row * 8 + n - 1] as int;
        let y = b[(n - 1) * 8 + col] as int;
        assert(-0x4000_0000 <= x * y <= 0x4000_0000) by (nonlinear_arith)
            requires
                -0x8000 <= x <= 0x7fff,
                -0x8000 <= y <= 0x7fff,
        ;
    }
}

/// Product sum of row `row` of `a` and column `col` of `m`
fn dot_row_col(a: &Vec<i16>, m: &Vec<i16>, row: usize, col: usize) -> (sum: i64)
    requires
        a@.len() == 64,
        m@.len() == 64,
        row < 8,
        col < 8,
    ensures
        sum == dot8(a@, m@, row as int, col as int, 8),
{
    let mut sum: i64 = 0;
    let mut c: usize = 0;
    while c < 8
        invariant
            a@.len() == 64,
            m@.len() == 64,
            row < 8,
            col < 8,
            c <= 8,
            sum == dot8(a@, m@, row as int, col as int, c as nat),
        decreases 8 - c,
    {
        proof {
            lemma_dot8_bound(a@, m@, row as int, col as int, c as nat);
        }
        let x = a[row * 8 + c] as i64;
        let y = m[c * 8 + col] as i64;
        assert(-0x4000_0000 <= x * y <= 0x4000_0000) by (nonlinear_arith)
            requires
                -0x8000 <= x <= 0x7fff,
                -0x8000 <= y <= 0x7fff,
        ;
        // XXX what happens in case of overflow? The 64 bit sum
        // cannot overflow and only its bits [30:15] are kept.
        sum = sum + x * y;
        c += 1;
    }
    sum
}

impl IdctMatrix {
    /// Compute the Inverse Discrete Cosine Transform of `coeffs` and
    /// store the result in `block`
    pub fn idct(&self, coeffs: &MacroblockCoeffs, block: &mut Macroblock)
        requires
            self.view().len() == 64,
            coeffs.view().len() == 64,
            old(block).view().len() == 64,
        ensures
            final(block).view() == spec_idct(coeffs.view(), self.view()),
    {
        let m = &self.0;
        let mut block_tmp: Vec<i16> = MacroblockCoeffs::new().0;
        let ghost tmp_target = idct_pass1(coeffs.view(), self.view());
        // First pass, store intermediate results in `block_tmp`
        let mut y: usize = 0;
        while y < 8
            invariant
                y <= 8,
                block_tmp@.len() == 64,
                m@ == self.view(),
                m@.len() == 64,
                coeffs.view().len() == 64,
                tmp_target == idct_pass1(coeffs.view(), self.view()),
                forall|k: int| 0 <= k < 64 && k % 8 < y ==> #[trigger] block_tmp@[k] == tmp_target[k],
            decreases 8 - y,
        {
            let mut x: usize = 0;
            while x < 8
                invariant
                    y < 8,
                    x <= 8,
                    block_tmp@.len() == 64,
                    m@ == self.view(),
                    m@.len() == 64,
                    coeffs.view().len() == 64,
                    tmp_target == idct_pass1(coeffs.view(), self.view()),
                    forall|k: int|
                        0 <= k < 64 && (k % 8 < y || (k % 8 == y && k / 8 < x)) ==> #[trigger] block_tmp@[k]
                            == tmp_target[k],
                decreases 8 - x,
            {
                let sum = dot_row_col(&coeffs.0, m, y, x);
                proof {
                    lemma_dot8_bound(coeffs.view(), self.view(), y as int, x as int, 8);
                }
                let v = (sum + 0x4000) >> 15;
                block_tmp.set(x * 8 + y, v as i16);
                proof {
                    assert((x * 8 + y) as int % 8 == y as int && (x * 8 + y) as int / 8 == x as int);
                }
                x += 1;
            }
            y += 1;
        }
        assert(block_tmp@ =~= tmp_target);
        // 2nd pass, saturate the values into `block`
        let ghost target = spec_idct(coeffs.view(), self.view());
        let mut y: usize = 0;
        while y < 8
            invariant
                y <= 8,
                block_tmp@ == tmp_target,
                tmp_target == idct_pass1(coeffs.view(), self.view()),
                block.view().len() == 64,
                m@ == self.view(),
                m@.len() == 64,
                target == spec_idct(coeffs.view(), self.view()),
                forall|k: int| 0 <= k < 64 && k / 8 < y ==> #[trigger] block.view()[k] == target[k],
            decreases 8 - y,
        {
            let mut x: usize = 0;
            while x < 8
                invariant
                    y < 8,
                    x <= 8,
                    block_tmp@ == tmp_target,
                    tmp_target == idct_pass1(coeffs.view(), self.view()),
                    block.view().len() == 64,
                    m@ == self.view(),
                    m@.len() == 64,
                    target == spec_idct(coeffs.view(), self.view()),
                    forall|k: int|
                        0 <= k < 64 && (k / 8 < y || (k / 8 == y && k % 8 < x)) ==> #[trigger] block.view()[k]
                            == target[k],
                decreases 8 - x,
            {
                let sum = dot_row_col(&block_tmp, m, y, x);
                proof {
                    lemma_dot8_bound(block_tmp@, self.view(), y as int, x as int, 8);
                }
                let v = (sum + 0x4000) >> 15;
                // Sign extend 9bit value
                let v = v as u16;
                let v = v << (16 - 9);
                let v = (v as i16) >> (16 - 9);
                // Saturate
                let v: i8 = if v < -128 {
                    -128
                } else if v > 127 {
                    127
                } else {
                    v as i8
                };
                block.0.set(y * 8 + x, v);
                proof {
                    assert((y * 8 + x) as int % 8 == x as int && (y * 8 + x) as int / 8 == y as int);
                }
                x += 1;
            }
            y += 1;
        }
        assert(block.view() =~= target);
    }
}

/// Pixel color depths supported by the MDEC
#[derive(Clone, Copy, PartialEq, Eq, Debug, Structural)]
pub enum OutputDepth {
    D4Bpp,
    D8Bpp,
    D15Bpp,
    D24Bpp,
}

/// Value of the output depth field of the status register
pub open spec fn depth_field(d: OutputDepth) -> u32 {
    match d {
        OutputDepth::D4Bpp => 0,
        OutputDepth::D8Bpp => 1,
        OutputDepth::D24Bpp => 2,
        OutputDepth::D15Bpp => 3,
    }
}

/// Output depth selected by a 2 bit command field
pub open spec fn depth_of(field: u32) -> OutputDepth {
    if field == 0 {
        OutputDepth::D4Bpp
    } else if field == 1 {
        OutputDepth::D8Bpp
    } else if field == 2 {
        OutputDepth::D24Bpp
    } else {
        OutputDepth::D15Bpp
    }
}

/// Luma-only output (4 or 8bpp)
pub open spec fn depth_mono(d: OutputDepth) -> bool {
    d == OutputDepth::D4Bpp || d == OutputDepth::D8Bpp
}

#[derive(Clone, Copy, PartialEq, Eq, Debug, Structural)]
pub enum BlockType {
    Y1,
    Y2,
    Y3,
    Y4,
    /// Luma (Y) for monochrome, Cr otherwise
    CrMono,
    Cb,
}

/// Handler of the words written to the command register
#[derive(Clone, Copy, PartialEq, Eq, Debug, Structural)]
pub enum CommandHandler {
    /// Waiting for a new command
    Command,
    /// Loading the luma and chroma quantization matrices
    ColorQuantMatrices,
    /// Loading the luma quantization matrix
    MonochromeQuantMatrix,
    /// Loading the IDCT matrix
    IdctMatrix,
    /// Receiving RLE encoded macroblock data
    EncodedWord,
}

/// Abstract state of the MDEC
pub struct MDecView {
    pub dma_in_enable: bool,
    pub dma_out_enable: bool,
    pub output_depth: OutputDepth,
    pub output_signed: bool,
    pub output_bit15: bool,
    pub quant_luma: Seq<u8>,
    pub quant_chroma: Seq<u8>,
    pub idct_matrix: Seq<i16>,
    pub handler: CommandHandler,
    pub remaining: u16,
    pub block_y: Seq<i8>,
    pub block_u: Seq<i8>,
    pub block_v: Seq<i8>,
    pub coeffs: Seq<i16>,
    pub current_block: BlockType,
    pub block_index: u8,
    pub qscale: u8,
}

/// Quantization factor for coefficient `index` of the current block
pub open spec fn quant_factor(m: MDecView, index: int) -> u8 {
    if !depth_mono(m.output_depth) && (m.current_block == BlockType::CrMono || m.current_block
        == BlockType::Cb) {
        m.quant_chroma[index]
    } else {
        m.quant_luma[index]
    }
}

/// Store the next coefficient of the block (zigzag order)
pub open spec fn put_coeff(m: MDecView, c: i16) -> MDecView {
    MDecView {
        coeffs: m.coeffs.update(zigzag()[m.block_index as int] as int, c),
        block_index: (m.block_index + 1) as u8,
        ..m
    }
}

/// Store `n` zero coefficients
pub open spec fn fill_zeros(m: MDecView, n: nat) -> MDecView
    decreases n,
{
    if n == 0 {
        m
    } else {
        fill_zeros(put_coeff(m, 0), (n - 1) as nat)
    }
}

/// The current block is complete: run the IDCT into its buffer and
/// move on to the next block (color output)
#[verifier::opaque]
pub open spec fn block_done(m: MDecView) -> MDecView {
    let out = spec_idct(m.coeffs, m.idct_matrix);
    let m2 = match m.current_block {
        BlockType::Y1 => MDecView { block_y: out, current_block: BlockType::Y2, ..m },
        BlockType::Y2 => MDecView { block_y: out, current_block: BlockType::Y3, ..m },
        BlockType::Y3 => MDecView { block_y: out, current_block: BlockType::Y4, ..m },
        BlockType::Y4 => MDecView { block_y: out, current_block: BlockType::CrMono, ..m },
        BlockType::CrMono => MDecView { block_v: out, current_block: BlockType::Cb, ..m },
        BlockType::Cb => MDecView { block_u: out, current_block: BlockType::Y1, ..m },
    };
    MDecView { block_index: 0, ..m2 }
}

/// Completing a block resets the block index and leaves the tables,
/// the handler and the coefficients alone
pub proof fn lemma_block_done(m: MDecView)
    ensures
        block_done(m).block_index == 0,
        block_done(m).handler == m.handler,
        block_done(m).remaining == m.remaining,
        block_done(m).quant_luma == m.quant_luma,
        block_done(m).quant_chroma == m.quant_chroma,
        block_done(m).idct_matrix == m.idct_matrix,
        block_done(m).coeffs == m.coeffs,
        block_done(m).output_depth == m.output_depth,
        m.block_y.len() == 64 ==> block_done(m).block_y.len() == 64,
        m.block_u.len() == 64 ==> block_done(m).block_u.len() == 64,
        m.block_v.len() == 64 ==> block_done(m).block_v.len() == 64,
{
    reveal(block_done);
}

/// The RLE halfword `rle` can be decoded: no coefficient overflow and
/// no completed block in monochrome mode (not implemented)
pub open spec fn rle_ok(m: MDecView, rle: u16) -> bool {
    if m.block_index == 0 {
        true
    } else if rle == 0xfe00 {
        !depth_mono(m.output_depth)
    } else {
        let zeroes = rle >> 10u16;
        &&& m.block_index + zeroes < 64
        &&& m.block_index + zeroes + 1 == 64 ==> !depth_mono(m.output_depth)
    }
}

/// State after decoding the RLE halfword `rle`
#[verifier::opaque]
pub open spec fn rle_decoded(m: MDecView, rle: u16) -> MDecView {
    if m.block_index == 0 {
        if rle == 0xfe00 {
            // Padding before the start of a block
            m
        } else {
            // DC value (low 10 bits) and AC quantization scaling
            // factor (high 6 bits)
            let m1 = MDecView { qscale: (rle >> 10u16) as u8, ..m };
            put_coeff(m1, spec_quantize(rle & 0x3ff, quant_factor(m1, 0), None))
        }
    } else {
        let m2 = if rle == 0xfe00 {
            // End-of-block marker
            fill_zeros(m, (64 - m.block_index) as nat)
        } else {
            let m1 = fill_zeros(m, (rle >> 10u16) as nat);
            put_coeff(
                m1,
                spec_quantize(rle & 0x3ff, quant_factor(m1, m1.block_index as int), Some(m1.qscale)),
            )
        };
        if m2.block_index == 64 {
            block_done(m2)
        } else {
            m2
        }
    }
}

/// Quantization matrix `q` with the 4 bytes of `cmd` stored at `index`
pub open spec fn put_word_bytes(q: Seq<u8>, index: int, cmd: u32) -> Seq<u8> {
    q.update(index, cmd as u8).update(index + 1, (cmd >> 8u32) as u8).update(
        index + 2,
        (cmd >> 16u32) as u8,
    ).update(index + 3, (cmd >> 24u32) as u8)
}

/// State after the command word `cmd` was handled by the current
/// handler (the remaining word count already decremented)
#[verifier::opaque]
pub open spec fn handled(m: MDecView, cmd: u32) -> MDecView {
    match m.handler {
        CommandHandler::Command => {
            let opcode = cmd >> 29u32;
            // Updated no matter the opcode
            let m1 = MDecView {
                output_depth: depth_of((cmd >> 27u32) & 3),
                output_signed: (cmd >> 26u32) & 1 != 0,
                output_bit15: (cmd >> 25u32) & 1 != 0,
                ..m
            };
            if opcode == 1 {
                MDecView {
                    current_block: BlockType::CrMono,
                    block_index: 0,
                    remaining: (cmd & 0xffff) as u16,
                    handler: CommandHandler::EncodedWord,
                    ..m1
                }
            } else if opcode == 2 {
                if cmd & 1 != 0 {
                    MDecView { remaining: 32, handler: CommandHandler::ColorQuantMatrices, ..m1 }
                } else {
                    MDecView { remaining: 16, handler: CommandHandler::MonochromeQuantMatrix, ..m1 }
                }
            } else {
                MDecView { remaining: 32, handler: CommandHandler::IdctMatrix, ..m1 }
            }
        },
        CommandHandler::ColorQuantMatrices => {
            let index = 31 - m.remaining;
            if index < 16 {
                MDecView { quant_luma: put_word_bytes(m.quant_luma, (index % 16) * 4, cmd), ..m }
            } else {
                MDecView { quant_chroma: put_word_bytes(m.quant_chroma, (index % 16) * 4, cmd), ..m }
            }
        },
        CommandHandler::MonochromeQuantMatrix => {
            let index = 15 - m.remaining;
            MDecView { quant_luma: put_word_bytes(m.quant_luma, index * 4, cmd), ..m }
        },
        CommandHandler::IdctMatrix => {
            let index = (31 - m.remaining) * 2;
            // The loss of precision in the bitshift looks suspicious
            // but that's what mednafen does.
            MDecView {
                idct_matrix: m.idct_matrix.update(index, (cmd as i16) >> 3i16).update(
                    index + 1,
                    ((cmd >> 16u32) as i16) >> 3i16,
                ),
                ..m
            }
        },
        CommandHandler::EncodedWord => rle_decoded(rle_decoded(m, cmd as u16), (cmd >> 16u32) as u16),
    }
}

/// The command word `cmd` is supported by the current handler
pub open spec fn command_ok(m: MDecView, cmd: u32) -> bool {
    match m.handler {
        CommandHandler::Command => {
            let opcode = cmd >> 29u32;
            opcode == 1 || opcode == 2 || opcode == 3
        },
        CommandHandler::EncodedWord => {
            let m1 = MDecView { remaining: (m.remaining - 1) as u16, ..m };
            rle_ok(m1, cmd as u16) && rle_ok(rle_decoded(m1, cmd as u16), (cmd >> 16u32) as u16)
        },
        _ => true,
    }
}

/// State after a write of `cmd` to the command register: when the
/// last word of the command is received the MDEC waits for the next
/// command
pub open spec fn command_written(m: MDecView, cmd: u32) -> MDecView {
    let m1 = handled(MDecView { remaining: (m.remaining - 1) as u16, ..m }, cmd);
    if m1.remaining == 0 {
        MDecView { handler: CommandHandler::Command, remaining: 1, ..m1 }
    } else {
        m1
    }
}

/// Bits [15:0] of the status register: the number of remaining
/// parameter words minus 1, or 0xffff if no parameter is expected
pub open spec fn remaining_field(m: MDecView) -> u32 {
    if m.handler == CommandHandler::Command {
        0xffff
    } else {
        m.remaining.wrapping_sub(1) as u32
    }
}

/// Value of the status register
pub open spec fn status_value(m: MDecView) -> u32 {
    remaining_field(m) | ((if m.output_bit15 { 1u32 } else { 0u32 }) << 23u32)
        | ((if m.output_signed { 1u32 } else { 0u32 }) << 24u32) | (depth_field(m.output_depth)
        << 25u32) | ((if m.handler != CommandHandler::Command { 1u32 } else { 0u32 }) << 29u32) | (1u32 << 31u32)
}

/// State after a write of `val` to the control register
pub open spec fn control_written(m: MDecView, val: u32) -> MDecView {
    let m1 = MDecView {
        dma_in_enable: val & (1u32 << 30u32) != 0,
        dma_out_enable: val & (1u32 << 29u32) != 0,
        ..m
    };
    if val & (1u32 << 31u32) != 0 {
        // Reset
        MDecView {
            output_depth: OutputDepth::D4Bpp,
            output_signed: false,
            output_bit15: false,
            current_block: BlockType::CrMono,
            handler: CommandHandler::Command,
            remaining: 1,
            ..m1
        }
    } else {
        m1
    }
}

/// Buffers of 64 entries, a command word pending, a block index
/// within the block and a remaining word count matching the handler
pub open spec fn mdec_wf(m: MDecView) -> bool {
    &&& m.quant_luma.len() == 64
    &&& m.quant_chroma.len() == 64
    &&& m.idct_matrix.len() == 64
    &&& m.block_y.len() == 64
    &&& m.block_u.len() == 64
    &&& m.block_v.len() == 64
    &&& m.coeffs.len() == 64
    &&& m.remaining >= 1
    &&& m.block_index < 64
    &&& handler_ok(m)
}

/// The remaining word count fits the table being loaded
pub open spec fn handler_ok(m: MDecView) -> bool {
    &&& m.handler == CommandHandler::ColorQuantMatrices ==> m.remaining <= 32
    &&& m.handler == CommandHandler::IdctMatrix ==> m.remaining <= 32
    &&& m.handler == CommandHandler::MonochromeQuantMatrix ==> m.remaining <= 16
}

/// Buffer sizes and block index of a well formed MDEC state
pub open spec fn buffers_ok(m: MDecView) -> bool {
    &&& m.quant_luma.len() == 64
    &&& m.quant_chroma.len() == 64
    &&& m.idct_matrix.len() == 64
    &&& m.block_y.len() == 64
    &&& m.block_u.len() == 64
    &&& m.block_v.len() == 64
    &&& m.coeffs.len() == 64
    &&& m.block_index < 64
}

/// Storing `n` zero coefficients moves the block index forward by `n`
/// and only touches the coefficients
pub proof fn lemma_fill_zeros(m: MDecView, n: nat)
    requires
        m.block_index + n < 256,
        m.coeffs.len() == 64,
        m.block_index + n <= 64,
    ensures
        fill_zeros(m, n).block_index == m.block_index + n,
        fill_zeros(m, n).coeffs.len() == 64,
        fill_zeros(m, n) == (MDecView { coeffs: fill_zeros(m, n).coeffs, block_index: fill_zeros(m, n).block_index, ..m }),
    decreases n,
{
    if n > 0 {
        assert(zigzag()[m.block_index as int] < 64) by {
            assert(forall|i: int| 0 <= i < 64 ==> #[trigger] zigzag()[i] < 64);
        }
        lemma_fill_zeros(put_coeff(m, 0), (n - 1) as nat);
    }
}

/// Motion Decoder (sometimes called macroblock or movie decoder).
pub struct MDec {
    dma_in_enable: bool,
    dma_out_enable: bool,
    output_depth: OutputDepth,
    output_signed: bool,
    /// When the output depth is set to 15bpp this variable is used to
    /// fill the 16th bit
    output_bit15: bool,
    /// Quantization matrix for luma
    quant_luma: QuantMatrix,
    /// Quantization matrix for chroma
    quant_chroma: QuantMatrix,
    /// Inverse discrete cosine transform matrix. No$ says that "all
    /// known games" use the same values for this matrix, so it could
    /// be possible to optimize the decoding for this particular
    /// table.
    idct_matrix: IdctMatrix,
    /// Handler of the writes to the command register
    command_handler: CommandHandler,
    /// Remaining words expected for this command
    command_remaining: u16,
    /// Buffer for the currently decoded luma macroblock.
    block_y: Macroblock,
    /// Buffer for the currently decoded Cb macroblock.
    block_u: Macroblock,
    /// Buffer for the currently decoded Cr macroblock.
    block_v: Macroblock,
    /// 16bit coefficients during macroblock decoding
    block_coeffs: MacroblockCoeffs,
    /// Current block type
    current_block: BlockType,
    /// Index in the current macroblock
    block_index: u8,
    /// Quantization factor for the current macroblock, used for the
    /// AC values only.
    qscale: u8,
}

impl View for MDec {
    type V = MDecView;

    closed spec fn view(&self) -> MDecView {
        MDecView {
            dma_in_enable: self.dma_in_enable,
            dma_out_enable: self.dma_out_enable,
            output_depth: self.output_depth,
            output_signed: self.output_signed,
            output_bit15: self.output_bit15,
            quant_luma: self.quant_luma.view(),
            quant_chroma: self.quant_chroma.view(),
            idct_matrix: self.idct_matrix.view(),
            handler: self.command_handler,
            remaining: self.command_remaining,
            block_y: self.block_y.view(),
            block_u: self.block_u.view(),
            block_v: self.block_v.view(),
            coeffs: self.block_coeffs.view(),
            current_block: self.current_block,
            block_index: self.block_index,
            qscale: self.qscale,
        }
    }
}

impl MDec {
    pub fn new() -> (m: MDec)
        ensures
            mdec_wf(m@),
            !m@.dma_in_enable && !m@.dma_out_enable,
            m@.output_depth == OutputDepth::D4Bpp,
            !m@.output_signed && !m@.output_bit15,
            m@.current_block == BlockType::CrMono,
            m@.handler == CommandHandler::Command,
            m@.remaining == 1,
            m@.block_index == 0,
            m@.qscale == 0,
    {
        MDec {
            dma_in_enable: false,
            dma_out_enable: false,
            output_depth: OutputDepth::D4Bpp,
            output_signed: false,
            output_bit15: false,
            current_block: BlockType::CrMono,
            quant_luma: QuantMatrix::new(),
            quant_chroma: QuantMatrix::new(),
            idct_matrix: IdctMatrix::new(),
            command_handler: CommandHandler::Command,
            command_remaining: 1,
            block_y: Macroblock::new(),
            block_u: Macroblock::new(),
            block_v: Macroblock::new(),
            block_coeffs: MacroblockCoeffs::new(),
            block_index: 0,
            qscale: 0,
        }
    }

    /// Register load: only the status register (offset 4, 32 bit
    /// accesses) can be read
    pub fn load<A: Addressable>(&mut self, _shared: &mut SharedState, offset: u32) -> (r: u32)
        requires
            access_bytes(A::spec_width()) == 4,
            offset == 4,
        ensures
            r == status_value(old(self)@),
            final(self)@ == old(self)@,
            *final(_shared) == *old(_shared),
    {
        self.status()
    }

    /// Register store: command (offset 0) or control (offset 4)
    /// register, 32 bit accesses
    pub fn store<A: Addressable>(&mut self, _shared: &mut SharedState, offset: u32, val: u32)
        requires
            mdec_wf(old(self)@),
            access_bytes(A::spec_width()) == 4,
            offset == 0 || offset == 4,
            offset == 0 ==> command_ok(old(self)@, val),
        ensures
            mdec_wf(final(self)@),
            final(self)@ == if offset == 0 {
                command_written(old(self)@, val)
            } else {
                control_written(old(self)@, val)
            },
            *final(_shared) == *old(_shared),
    {
        if offset == 0 {
            self.command(val);
        } else {
            self.set_control(val);
        }
    }

    /// Status register
    pub fn status(&self) -> (r: u32)
        ensures
            r == status_value(self@),
    {
        let mut r: u32 = 0;
        // Bits [15:0] contain the number of remaining parameter words
        // minus 1, or 0xffff if no parameter is expected.
        let remaining: u32 = match self.command_handler {
            CommandHandler::Command => 0xffff,
            _ => self.command_remaining.wrapping_sub(1) as u32,
        };
        r = r | remaining;
        // XXX Implement bits [18:16]: current block
        r = r | ((if self.output_bit15 { 1u32 } else { 0u32 }) << 23);
        r = r | ((if self.output_signed { 1u32 } else { 0u32 }) << 24);
        let depth: u32 = match self.output_depth {
            OutputDepth::D4Bpp => 0,
            OutputDepth::D8Bpp => 1,
            OutputDepth::D24Bpp => 2,
            OutputDepth::D15Bpp => 3,
        };
        r = r | (depth << 25);
        // XXX Implement bits 27 and 28: DMA data in/out request
        // Command busy flag.
        let command_pending = match self.command_handler {
            CommandHandler::Command => false,
            _ => true,
        };
        r = r | ((if command_pending { 1u32 } else { 0u32 }) << 29);
        // XXX Implement bit 30: data in FIFO full
        // XXX Implement bit 31: data out FIFO empty
        r = r | (1 << 31);
        proof {
            lemma_mdec_bits(0, 0, 0, remaining);
        }
        r
    }

    /// Handle writes to the command register
    pub fn command(&mut self, cmd: u32)
        requires
            mdec_wf(old(self)@),
            command_ok(old(self)@, cmd),
        ensures
            mdec_wf(final(self)@),
            final(self)@ == command_written(old(self)@, cmd),
    {
        self.command_remaining = self.command_remaining - 1;
        self.dispatch(cmd);
        if self.command_remaining == 0 {
            self.command_handler = CommandHandler::Command;
            self.command_remaining = 1;
        }
    }

    /// Hand the command word to the current handler
    fn dispatch(&mut self, cmd: u32)
        requires
            buffers_ok(old(self)@),
            old(self)@.handler == CommandHandler::ColorQuantMatrices ==> old(self)@.remaining <= 31,
            old(self)@.handler == CommandHandler::IdctMatrix ==> old(self)@.remaining <= 31,
            old(self)@.handler == CommandHandler::MonochromeQuantMatrix ==> old(self)@.remaining <= 15,
            old(self)@.handler == CommandHandler::Command ==> (cmd >> 29u32 == 1 || cmd >> 29u32 == 2
                || cmd >> 29u32 == 3),
            old(self)@.handler == CommandHandler::EncodedWord ==> rle_ok(old(self)@, cmd as u16)
                && rle_ok(rle_decoded(old(self)@, cmd as u16), (cmd >> 16u32) as u16),
        ensures
            final(self)@ == handled(old(self)@, cmd),
            buffers_ok(final(self)@),
            handler_ok(final(self)@),
    {
        match self.command_handler {
            CommandHandler::Command => self.handle_command(cmd),
            CommandHandler::ColorQuantMatrices => self.handle_color_quant_matrices(cmd),
            CommandHandler::MonochromeQuantMatrix => self.handle_monochrome_quant_matrix(cmd),
            CommandHandler::IdctMatrix => self.handle_idct_matrix(cmd),
            CommandHandler::EncodedWord => self.handle_encoded_word(cmd),
        }
    }

    /// Return true if we're currently configured to decode luma-only
    /// blocks (i.e. 4 or 8bpp blocks)
    pub fn is_monochrome(&self) -> (r: bool)
        ensures
            r == depth_mono(self@.output_depth),
    {
        match self.output_depth {
            OutputDepth::D4Bpp | OutputDepth::D8Bpp => true,
            _ => false,
        }
    }

    fn handle_command(&mut self, cmd: u32)
        requires
            buffers_ok(old(self)@),
            old(self)@.handler == CommandHandler::Command,
            command_ok(old(self)@, cmd),
        ensures
            final(self)@ == handled(old(self)@, cmd),
            buffers_ok(final(self)@),
            handler_ok(final(self)@),
    {
        reveal(handled);
        let opcode = cmd >> 29;
        // Those internal variables (accessible through the status
        // register) are updated no matter the opcode. They're
        // probably meaningless for table loading opcodes though (most
        // likely full 0s).
        let depth = (cmd >> 27) & 3;
        self.output_depth = if depth == 0 {
            OutputDepth::D4Bpp
        } else if depth == 1 {
            OutputDepth::D8Bpp
        } else if depth == 2 {
            OutputDepth::D24Bpp
        } else {
            OutputDepth::D15Bpp
        };
        self.output_signed = (cmd >> 26) & 1 != 0;
        self.output_bit15 = (cmd >> 25) & 1 != 0;
        if opcode == 1 {
            let block_len = cmd & 0xffff;
            self.current_block = BlockType::CrMono;
            self.block_index = 0;
            self.command_remaining = block_len as u16;
            self.command_handler = CommandHandler::EncodedWord;
        } else if opcode == 2 {
            // Set quantization matrices. Bit 0 tells us whether we're
            // setting only the luma table or luma + chroma.
            if cmd & 1 != 0 {
                self.command_remaining = 32;
                self.command_handler = CommandHandler::ColorQuantMatrices;
            } else {
                self.command_remaining = 16;
                self.command_handler = CommandHandler::MonochromeQuantMatrix;
            }
        } else {
            self.command_remaining = 32;
            self.command_handler = CommandHandler::IdctMatrix;
        }
    }

    fn handle_color_quant_matrices(&mut self, cmd: u32)
        requires
            buffers_ok(old(self)@),
            old(self)@.handler == CommandHandler::ColorQuantMatrices,
            old(self)@.remaining <= 31,
            old(self)@.quant_luma.len() == 64,
            old(self)@.quant_chroma.len() == 64,
        ensures
            final(self)@ == handled(old(self)@, cmd),
            buffers_ok(final(self)@),
            handler_ok(final(self)@),
    {
        reveal(handled);
        let index = (31 - self.command_remaining) as usize;
        let matrix = index / 16;
        let index = (index % 16) * 4;
        if matrix == 0 {
            put_word(&mut self.quant_luma, index, cmd);
        } else {
            put_word(&mut self.quant_chroma, index, cmd);
        }
    }

    fn handle_monochrome_quant_matrix(&mut self, cmd: u32)
        requires
            buffers_ok(old(self)@),
            old(self)@.handler == CommandHandler::MonochromeQuantMatrix,
            old(self)@.remaining <= 15,
            old(self)@.quant_luma.len() == 64,
        ensures
            final(self)@ == handled(old(self)@, cmd),
            buffers_ok(final(self)@),
            handler_ok(final(self)@),
    {
        reveal(handled);
        let index = (15 - self.command_remaining) as usize;
        let index = index * 4;
        put_word(&mut self.quant_luma, index, cmd);
    }

    fn handle_idct_matrix(&mut self, cmd: u32)
        requires
            buffers_ok(old(self)@),
            old(self)@.handler == CommandHandler::IdctMatrix,
            old(self)@.remaining <= 31,
            old(self)@.idct_matrix.len() == 64,
        ensures
            final(self)@ == handled(old(self)@, cmd),
            buffers_ok(final(self)@),
            handler_ok(final(self)@),
    {
        reveal(handled);
        let index = (31 - self.command_remaining) as usize;
        let index = index * 2;
        let c1 = cmd as i16;
        let c2 = (cmd >> 16) as i16;
        // The loss of precision in the bitshift looks suspicious to
        // me but that's what mednafen does. Probably worth
        // investigating on the real hardware.
        self.idct_matrix.0.set(index, c1 >> 3);
        self.idct_matrix.0.set(index + 1, c2 >> 3);
    }

    fn handle_encoded_word(&mut self, cmd: u32)
        requires
            old(self)@.handler == CommandHandler::EncodedWord,
            mdec_wf(MDecView { remaining: 1, ..old(self)@ }),
            rle_ok(old(self)@, cmd as u16),
            rle_ok(rle_decoded(old(self)@, cmd as u16), (cmd >> 16u32) as u16),
        ensures
            final(self)@ == handled(old(self)@, cmd),
            buffers_ok(final(self)@),
            handler_ok(final(self)@),
            mdec_wf(MDecView { remaining: 1, ..final(self)@ }),
            final(self)@.handler == old(self)@.handler,
            final(self)@.remaining == old(self)@.remaining,
    {
        reveal(handled);
        self.decode_rle(cmd as u16);
        self.decode_rle((cmd >> 16) as u16);
    }

    fn decode_rle(&mut self, rle: u16)
        requires
            mdec_wf(MDecView { remaining: 1, ..old(self)@ }),
            rle_ok(old(self)@, rle),
        ensures
            final(self)@ == rle_decoded(old(self)@, rle),
            mdec_wf(MDecView { remaining: 1, ..final(self)@ }),
            final(self)@.handler == old(self)@.handler,
            final(self)@.remaining == old(self)@.remaining,
    {
        reveal(rle_decoded);
        if self.block_index == 0 {
            if rle == 0xfe00 {
                // This is normally the end-of-block marker but if it
                // occurs before the start of a block it's just padding
                // and we should ignore it.
                return;
            }
            // The first value in the block is the DC value (low 10
            // bits) and the AC quantization scaling factor (high 6
            // bits)
            self.qscale = (rle >> 10) as u8;
            let dc = rle & 0x3ff;
            let dc = quantize(dc, self.quantization(), None);
            self.next_block_coeff(dc);
        } else {
            let ghost start = self@;
            if rle == 0xfe00 {
                // End-of-block marker
                proof {
                    lemma_fill_zeros(start, (64 - start.block_index) as nat);
                }
                while self.block_index < 64
                    invariant
                        self@.coeffs.len() == 64,
                        self@.block_index <= 64,
                        fill_zeros(self@, (64 - self@.block_index) as nat) == fill_zeros(
                            start,
                            (64 - start.block_index) as nat,
                        ),
                    decreases 64 - self@.block_index,
                {
                    self.next_block_coeff(0);
                }
            } else {
                // Decode RLE encoded block
                let zeroes = rle >> 10;
                let ac = rle & 0x3ff;
                proof {
                    lemma_fill_zeros(start, zeroes as nat);
                }
                // Fill the zeroes
                let mut k: u16 = 0;
                while k < zeroes
                    invariant
                        k <= zeroes,
                        self@.coeffs.len() == 64,
                        self@.block_index == start.block_index + k,
                        start.block_index + zeroes < 64,
                        fill_zeros(self@, (zeroes - k) as nat) == fill_zeros(start, zeroes as nat),
                    decreases zeroes - k,
                {
                    self.next_block_coeff(0);
                    k += 1;
                }
                // Compute the value of the AC coefficient
                let ac = quantize(ac, self.quantization(), Some(self.qscale));
                self.next_block_coeff(ac);
            }
            if self.block_index == 64 {
                // Block full, moving on
                proof {
                    lemma_block_done(self@);
                }
                self.next_block();
            }
        }
    }

    /// Return the quantization factor for the current block_index
    fn quantization(&self) -> (q: u8)
        requires
            self@.block_index < 64,
            self@.quant_luma.len() == 64,
            self@.quant_chroma.len() == 64,
        ensures
            q == quant_factor(self@, self@.block_index as int),
    {
        let index = self.block_index as usize;
        let chroma = if self.is_monochrome() {
            false
        } else {
            match self.current_block {
                BlockType::CrMono | BlockType::Cb => true,
                _ => false,
            }
        };
        if chroma {
            self.quant_chroma.0[index]
        } else {
            self.quant_luma.0[index]
        }
    }

    /// The current block is complete: compute its IDCT and move on to
    /// the next block. Monochrome output is not implemented.
    fn next_block(&mut self)
        requires
            !depth_mono(old(self)@.output_depth),
            old(self)@.idct_matrix.len() == 64,
            old(self)@.coeffs.len() == 64,
            old(self)@.block_y.len() == 64,
            old(self)@.block_u.len() == 64,
            old(self)@.block_v.len() == 64,
        ensures
            final(self)@ == block_done(old(self)@),
    {
        reveal(block_done);
        match self.current_block {
            BlockType::Y1 => {
                self.idct_matrix.idct(&self.block_coeffs, &mut self.block_y);
                self.current_block = BlockType::Y2;
            },
            BlockType::Y2 => {
                self.idct_matrix.idct(&self.block_coeffs, &mut self.block_y);
                self.current_block = BlockType::Y3;
            },
            BlockType::Y3 => {
                self.idct_matrix.idct(&self.block_coeffs, &mut self.block_y);
                self.current_block = BlockType::Y4;
            },
            BlockType::Y4 => {
                self.idct_matrix.idct(&self.block_coeffs, &mut self.block_y);
                self.current_block = BlockType::CrMono;
            },
            BlockType::CrMono => {
                self.idct_matrix.idct(&self.block_coeffs, &mut self.block_v);
                self.current_block = BlockType::Cb;
            },
            BlockType::Cb => {
                self.idct_matrix.idct(&self.block_coeffs, &mut self.block_u);
                self.current_block = BlockType::Y1;
            },
        }
        // We're ready for the next block's coefficients
        self.block_index = 0;
    }

    /// Set the value of the current block coeff pointed to by
    /// `block_index` and increment `block_index`.
    fn next_block_coeff(&mut self, coeff: i16)
        requires
            old(self)@.block_index < 64,
            old(self)@.coeffs.len() == 64,
        ensures
            final(self)@ == put_coeff(old(self)@, coeff),
            final(self)@.coeffs.len() == 64,
    {
        self.block_coeffs.set_zigzag(self.block_index, coeff);
        self.block_index = self.block_index + 1;
    }

    /// Set the value of the control register
    fn set_control(&mut self, val: u32)
        ensures
            final(self)@ == control_written(old(self)@, val),
    {
        let reset = val & (1 << 31) != 0;
        self.dma_in_enable = val & (1 << 30) != 0;
        self.dma_out_enable = val & (1 << 29) != 0;
        if reset {
            // XXX Does this reset anything else? DMA IN/DMA OUT
            // flags for instance? How about the various tables?
            // XXX clear FIFOs
            self.output_depth = OutputDepth::D4Bpp;
            self.output_signed = false;
            self.output_bit15 = false;
            self.current_block = BlockType::CrMono;
            self.command_handler = CommandHandler::Command;
            self.command_remaining = 1;
        }
    }
}

/// Store the 4 bytes of `cmd` at `index` in the quantization matrix
fn put_word(q: &mut QuantMatrix, index: usize, cmd: u32)
    requires
        old(q).view().len() == 64,
        index + 4 <= 64,
    ensures
        final(q).view() == put_word_bytes(old(q).view(), index as int, cmd),
{
    let mut i: usize = 0;
    while i < 4
        invariant
            i <= 4,
            index + 4 <= 64,
            q.view().len() == 64,
            forall|j: int| 0 <= j < 64 && !(index <= j < index + i) ==> #[trigger] q.view()[j] == old(q).view()[j],
            forall|j: int| index <= j < index + i ==> #[trigger] q.view()[j] == (cmd >> ((8 * (j - index)) as u32)) as u8,
        decreases 4 - i,
    {
        let b = (cmd >> ((i * 8) as u32)) as u8;
        q.0.set(index + i, b);
        i += 1;
    }
    proof {
        lemma_mdec_bits(0, 0, 0, cmd);
    }
    assert(q.view() =~= put_word_bytes(old(q).view(), index as int, cmd));
}

/// Bit-level facts about sign extension, scaled coefficients and
/// register packing
proof fn lemma_mdec_bits(val: u16, p: i32, qshift: u32, x: u32)
    by (bit_vector)
    ensures
        -512 <= ((val << 6u16) as i16) >> 6u16 <= 511,
        (-33292800 <= p <= 33227775 && qshift <= 3) ==> -33292800 <= p >> qshift <= 33227775,
        0u32 | x == x,
        x >> 0u32 == x,
{
}

} // verus!
