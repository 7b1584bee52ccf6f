//! Layer arithmetic of the variational autoencoder: the configuration, the
//! channel and size schedule of the encoder and decoder, the spatial sizes
//! that the convolutions produce, how the loss lines up reconstructed and
//! input images, and how loaded images are assembled into a batch.
//!
//! The tensors themselves are floating point and stay outside; what is here
//! decides their shapes.

use vstd::arithmetic::power2::pow2;
use vstd::prelude::*;

verus! {

/// Side length, in pixels, of the square images the model works on.
pub const TARGET_IMAGE_SIZE: usize = 512;

/// Pixels of one image of `TARGET_IMAGE_SIZE` squared pixels.
pub const IMAGE_PIXELS: usize = 262144;

/// Bytes of one RGB image of `TARGET_IMAGE_SIZE` squared pixels.
pub const IMAGE_BYTES: usize = 786432;

/// The most channels any convolution of the encoder or decoder produces.
pub const MAX_CHANNELS: usize = 256;

/// Configuration of the model.
#[derive(Debug, Clone, Copy, PartialEq, Eq, Structural)]
pub struct VaeConfig {
    /// Input image size (square).
    pub image_size: usize,
    /// Number of input channels (RGB = 3).
    pub in_channels: usize,
    /// Latent space dimension.
    pub latent_dim: usize,
    /// Number of classes for classification.
    pub num_classes: usize,
    /// Channels of the first encoder block.
    pub base_channels: usize,
    /// Number of encoder blocks, and of decoder blocks.
    pub num_blocks: usize,
}

impl Default for VaeConfig {
    /// 512 by 512 RGB images, a 256-dimensional latent space, 90 classes,
    /// 32 base channels and 4 blocks.
    fn default() -> (res: Self)
        ensures
            res == (VaeConfig {
                image_size: 512,
                in_channels: 3,
                latent_dim: 256,
                num_classes: 90,
                base_channels: 32,
                num_blocks: 4,
            }),
    {
        VaeConfig {
            image_size: 512,
            in_channels: 3,
            latent_dim: 256,
            num_classes: 90,
            base_channels: 32,
            num_blocks: 4,
        }
    }
}

/// Kernel size, stride and padding of a square convolution (dilation 1).
#[derive(Debug, Clone, Copy, PartialEq, Eq, Structural)]
pub struct ConvGeometry {
    pub kernel: usize,
    pub stride: usize,
    pub padding: usize,
}

// ---------------------------------------------------------------------------
// Encoder
// ---------------------------------------------------------------------------

/// `s` halved (rounding down) `i` times.
pub open spec fn halve(s: nat, i: nat) -> nat
    decreases i,
{
    if i == 0 {
        s
    } else {
        halve(s, (i - 1) as nat) / 2
    }
}

/// Output channels of encoder block `i`: the base channels, doubled at each
/// further block up to `MAX_CHANNELS`.
pub open spec fn enc_out(base: nat, i: nat) -> nat
    decreases i,
{
    if i == 0 {
        base
    } else {
        let prev = enc_out(base, (i - 1) as nat);
        if 2 * prev < MAX_CHANNELS {
            2 * prev
        } else {
            MAX_CHANNELS as nat
        }
    }
}

/// Input channels of encoder block `i`; for `i == num_blocks`, the channels
/// of the encoder's output.
pub open spec fn enc_in(c: VaeConfig, i: nat) -> nat {
    if i == 0 {
        c.in_channels as nat
    } else {
        enc_out(c.base_channels as nat, (i - 1) as nat)
    }
}

/// Length of the flattened encoder features: output channels times the
/// image size halved once per block, squared.
pub open spec fn enc_feature_size(c: VaeConfig) -> nat {
    let s = halve(c.image_size as nat, c.num_blocks as nat);
    enc_in(c, c.num_blocks as nat) * s * s
}

/// The encoder's arithmetic stays within `usize`.
pub open spec fn encoder_fits(c: VaeConfig) -> bool {
    &&& (c.num_blocks == 0 || 2 * c.base_channels <= usize::MAX)
    &&& enc_feature_size(c) <= usize::MAX
}

/// The layer shapes of the encoder.
pub struct EncoderPlan {
    /// `(input channels, output channels)` of each convolution block, each a
    /// convolution of `conv_geometry` followed by ReLU.
    pub conv_channels: Vec<(usize, usize)>,
    /// Kernel, stride and padding of the block convolutions: 3, 2 and 1.
    pub conv_geometry: ConvGeometry,
    /// Length of the flattened features, the input of the mean, log variance
    /// and classification projections.
    pub feature_size: usize,
    /// Output length of the mean and log variance projections.
    pub latent_dim: usize,
    /// Output length of the classification projection.
    pub num_classes: usize,
}

/// The encoder's layer shapes for `config`, or `None` where the arithmetic
/// overflows `usize`.
pub fn encoder_plan(config: &VaeConfig) -> (res: Option<EncoderPlan>)
    ensures
        res is Some <==> encoder_fits(*config),
        res matches Some(p) ==> {
            &&& p.conv_channels@.len() == config.num_blocks
            &&& forall|i: int|
                0 <= i < config.num_blocks ==> #[trigger] p.conv_channels@[i] == (
                    enc_in(*config, i as nat) as usize,
                    enc_out(config.base_channels as nat, i as nat) as usize,
                )
            &&& p.feature_size == enc_feature_size(*config)
            &&& p.conv_channels@.len() > 0 ==> p.conv_channels@[0].0 == config.in_channels
            &&& forall|i: int|
                1 <= i < config.num_blocks ==> #[trigger] p.conv_channels@[i].0
                    == p.conv_channels@[i - 1].1
            &&& p.feature_size == (if config.num_blocks == 0 {
                config.in_channels as int
            } else {
                p.conv_channels@[config.num_blocks - 1].1 as int
            }) * (config.image_size as int / pow2(config.num_blocks as nat) as int) * (
            config.image_size as int / pow2(config.num_blocks as nat) as int)
            &&& p.latent_dim == config.latent_dim
            &&& p.num_classes == config.num_classes
            &&& p.conv_geometry == (ConvGeometry { kernel: 3, stride: 2, padding: 1 })
        },
{
    if config.num_blocks > 0 && config.base_channels > usize::MAX / 2 {
        return None;
    }
    let mut conv_channels: Vec<(usize, usize)> = Vec::new();
    let mut current_size = config.image_size;
    let mut current_channels = config.in_channels;
    let mut next_channels = config.base_channels;
    let mut i: usize = 0;
    while i < config.num_blocks
        invariant
            i <= config.num_blocks,
            config.num_blocks > 0 ==> config.base_channels <= usize::MAX / 2,
            conv_channels@.len() == i,
            forall|k: int|
                0 <= k < i ==> #[trigger] conv_channels@[k] == (
                    enc_in(*config, k as nat) as usize,
                    enc_out(config.base_channels as nat, k as nat) as usize,
                ),
            current_size == halve(config.image_size as nat, i as nat),
            current_channels == enc_in(*config, i as nat),
            next_channels == enc_out(config.base_channels as nat, i as nat),
            i > 0 ==> next_channels <= MAX_CHANNELS,
        decreases config.num_blocks - i,
    {
        conv_channels.push((current_channels, next_channels));
        current_size = current_size / 2;
        current_channels = next_channels;
        let doubled = next_channels * 2;
        next_channels = if doubled < MAX_CHANNELS {
            doubled
        } else {
            MAX_CHANNELS
        };
        i = i + 1;
    }
    let ghost ch = current_channels as nat;
    let ghost sz = current_size as nat;
    assert(enc_feature_size(*config) == ch * sz * sz);
    proof {
        lemma_halve_is_division(config.image_size as nat, config.num_blocks as nat);
        if config.num_blocks > 0 {
            assert(conv_channels@[config.num_blocks - 1].1 == current_channels);
        }
    }
    let area = match current_channels.checked_mul(current_size) {
        Some(area) => area,
        None => {
            proof {
                lemma_product_grows(ch, sz);
            }
            return None;
        },
    };
    let feature_size = match area.checked_mul(current_size) {
        Some(feature_size) => feature_size,
        None => {
            return None;
        },
    };
    Some(
        EncoderPlan {
            conv_channels,
            conv_geometry: ConvGeometry { kernel: 3, stride: 2, padding: 1 },
            feature_size,
            latent_dim: config.latent_dim,
            num_classes: config.num_classes,
        },
    )
}

/// A product with a square of the same side is at least the first product,
/// unless the side is zero and both vanish.
proof fn lemma_product_grows(ch: nat, s: nat)
    ensures
        ch * s * s >= ch * s || ch * s * s == 0,
        ch * s > 0 ==> ch * s * s >= ch * s,
{
    if s > 0 {
        assert(ch * s <= ch * s * s) by (nonlinear_arith);
    } else {
        assert(ch * s * s == 0) by (nonlinear_arith)
            requires
                s == 0,
        ;
    }
}

// ---------------------------------------------------------------------------
// Decoder
// ---------------------------------------------------------------------------

/// Side length of the decoder's first feature map: the image size divided by
/// two to the number of blocks.
pub open spec fn dec_initial_size(c: VaeConfig) -> nat {
    c.image_size as nat / pow2(c.num_blocks as nat)
}

/// Channels of the decoder's first feature map: the channels the encoder
/// would reach without a cap, capped at `MAX_CHANNELS`.
pub open spec fn dec_initial_channels(c: VaeConfig) -> nat {
    let ch = c.base_channels as nat * pow2((c.num_blocks - 1) as nat);
    if ch < MAX_CHANNELS {
        ch
    } else {
        MAX_CHANNELS as nat
    }
}

/// The channel count the decoder offers block `i` as output: half the initial
/// channels for the first block, then halved again per block but never below
/// the base channels.
pub open spec fn dec_next(c: VaeConfig, i: nat) -> nat
    decreases i,
{
    if i == 0 {
        dec_initial_channels(c) / 2
    } else {
        let h = dec_next(c, (i - 1) as nat) / 2;
        if h < c.base_channels {
            c.base_channels as nat
        } else {
            h
        }
    }
}

/// Output channels of decoder block `i`: the last block gives back the image
/// channels.
pub open spec fn dec_out(c: VaeConfig, i: nat) -> nat {
    if i + 1 == c.num_blocks {
        c.in_channels as nat
    } else {
        dec_next(c, i)
    }
}

/// Input channels of decoder block `i`.
pub open spec fn dec_in(c: VaeConfig, i: nat) -> nat {
    if i == 0 {
        dec_initial_channels(c)
    } else {
        dec_out(c, (i - 1) as nat)
    }
}

/// Output length of the latent projection: the first feature map flattened.
pub open spec fn dec_latent_features(c: VaeConfig) -> nat {
    dec_initial_channels(c) * dec_initial_size(c) * dec_initial_size(c)
}

/// The decoder's arithmetic stays within `usize`: there is at least one
/// block, two to the number of blocks is a `usize`, and so are the uncapped
/// initial channels and the latent projection's output length.
pub open spec fn decoder_fits(c: VaeConfig) -> bool {
    &&& c.num_blocks >= 1
    &&& pow2(c.num_blocks as nat) <= usize::MAX
    &&& c.base_channels * pow2((c.num_blocks - 1) as nat) <= usize::MAX
    &&& dec_latent_features(c) <= usize::MAX
}

/// The layer shapes of the decoder.
pub struct DecoderPlan {
    /// Side length of the first feature map.
    pub initial_size: usize,
    /// Channels of the first feature map.
    pub initial_channels: usize,
    /// Output length of the projection from the latent space.
    pub latent_features: usize,
    /// `(input channels, output channels)` of each transposed convolution
    /// block, each of `deconv_geometry` (no output padding) followed by ReLU.
    pub deconv_channels: Vec<(usize, usize)>,
    /// Kernel, stride and padding of the transposed convolutions: 3, 2 and 1.
    pub deconv_geometry: ConvGeometry,
    /// Channels of the final output convolution, in and out.
    pub output_channels: usize,
    /// Kernel, stride and padding of the output convolution: 3, 1 and 1.
    pub output_geometry: ConvGeometry,
}

proof fn lemma_pow2_double(n: nat)
    ensures
        pow2(n + 1) == 2 * pow2(n),
        pow2(0) == 1,
        pow2(n) > 0,
{
    vstd::arithmetic::power2::lemma_pow2_pos(n);
    vstd::arithmetic::power2::lemma_pow2_unfold(n + 1);
    vstd::arithmetic::power2::lemma2_to64();
    assert((n + 1 - 1) as nat == n);
}

/// The decoder's layer shapes for `config`, or `None` where the arithmetic
/// overflows `usize` or there are no blocks.
pub fn decoder_plan(config: &VaeConfig) -> (res: Option<DecoderPlan>)
    ensures
        res is Some <==> decoder_fits(*config),
        res matches Some(p) ==> {
            &&& p.initial_size == dec_initial_size(*config)
            &&& p.initial_channels == dec_initial_channels(*config)
            &&& p.latent_features == dec_latent_features(*config)
            &&& p.deconv_channels@.len() == config.num_blocks
            &&& forall|i: int|
                0 <= i < config.num_blocks ==> #[trigger] p.deconv_channels@[i] == (
                    dec_in(*config, i as nat) as usize,
                    dec_out(*config, i as nat) as usize,
                )
            &&& p.output_channels == config.in_channels
            &&& p.initial_size as nat == config.image_size as nat / pow2(config.num_blocks as nat)
            &&& p.initial_channels <= MAX_CHANNELS
            &&& p.latent_features == p.initial_channels * p.initial_size * p.initial_size
            &&& p.deconv_channels@[0].0 == p.initial_channels
            &&& forall|i: int|
                1 <= i < config.num_blocks ==> #[trigger] p.deconv_channels@[i].0
                    == p.deconv_channels@[i - 1].1
            &&& p.deconv_channels@[config.num_blocks - 1].1 == config.in_channels
            &&& config.num_blocks > 1 ==> p.deconv_channels@[0].1 == p.initial_channels / 2
            &&& forall|i: int|
                1 <= i < config.num_blocks - 1 ==> #[trigger] p.deconv_channels@[i].1 == (if p.deconv_channels@[i - 1].1 / 2 < config.base_channels {
                    config.base_channels
                } else {
                    p.deconv_channels@[i - 1].1 / 2
                })
            &&& forall|i: int|
                1 <= i < config.num_blocks - 1 ==> #[trigger] p.deconv_channels@[i].1
                    >= config.base_channels
            &&& p.deconv_geometry == (ConvGeometry { kernel: 3, stride: 2, padding: 1 })
            &&& p.output_geometry == (ConvGeometry { kernel: 3, stride: 1, padding: 1 })
        },
{
    // Two to the number of blocks, unless it leaves `usize`.
    let mut scale: usize = 1;
    let mut k: usize = 0;
    proof {
        lemma_pow2_double(0);
    }
    while k < config.num_blocks
        invariant
            k <= config.num_blocks,
            scale == pow2(k as nat),
        decreases config.num_blocks - k,
    {
        proof {
            lemma_pow2_double(k as nat);
        }
        if scale > usize::MAX / 2 {
            proof {
                if k + 1 < config.num_blocks {
                    vstd::arithmetic::power2::lemma_pow2_strictly_increases(
                        (k + 1) as nat,
                        config.num_blocks as nat,
                    );
                }
            }
            return None;
        }
        scale = scale * 2;
        k = k + 1;
    }
    if config.num_blocks == 0 {
        return None;
    }
    proof {
        lemma_pow2_double((config.num_blocks - 1) as nat);
        assert((config.num_blocks - 1) as nat + 1 == config.num_blocks as nat);
    }
    let initial_size = config.image_size / scale;
    let half_scale = scale / 2;
    assert(half_scale == pow2((config.num_blocks - 1) as nat));
    let uncapped = match config.base_channels.checked_mul(half_scale) {
        Some(ch) => ch,
        None => {
            return None;
        },
    };
    let initial_channels = if uncapped < MAX_CHANNELS {
        uncapped
    } else {
        MAX_CHANNELS
    };
    let ghost ch = initial_channels as nat;
    let ghost sz = initial_size as nat;
    let area = match initial_channels.checked_mul(initial_size) {
        Some(area) => area,
        None => {
            proof {
                lemma_product_grows(ch, sz);
            }
            return None;
        },
    };
    let latent_features = match area.checked_mul(initial_size) {
        Some(n) => n,
        None => {
            return None;
        },
    };
    let mut deconv_channels: Vec<(usize, usize)> = Vec::new();
    let mut current_channels = initial_channels;
    let mut next_channels = current_channels / 2;
    let mut i: usize = 0;
    while i < config.num_blocks
        invariant
            1 <= config.num_blocks,
            initial_channels == dec_initial_channels(*config),
            i <= config.num_blocks,
            deconv_channels@.len() == i,
            forall|m: int|
                0 <= m < i ==> #[trigger] deconv_channels@[m] == (
                    dec_in(*config, m as nat) as usize,
                    dec_out(*config, m as nat) as usize,
                ),
            current_channels == dec_in(*config, i as nat),
            next_channels == dec_next(*config, i as nat),
            1 <= i < config.num_blocks ==> deconv_channels@[i - 1].1 as nat == dec_next(
                *config,
                (i - 1) as nat,
            ),
            forall|m: int|
                1 <= m < i && m < config.num_blocks - 1 ==> #[trigger] deconv_channels@[m].1 == (
                if deconv_channels@[m - 1].1 / 2 < config.base_channels {
                    config.base_channels
                } else {
                    deconv_channels@[m - 1].1 / 2
                }),
        decreases config.num_blocks - i,
    {
        let out_channels = if i == config.num_blocks - 1 {
            config.in_channels
        } else {
            next_channels
        };
        deconv_channels.push((current_channels, out_channels));
        current_channels = out_channels;
        let halved = next_channels / 2;
        next_channels = if halved < config.base_channels {
            config.base_channels
        } else {
            halved
        };
        i = i + 1;
    }
    Some(
        DecoderPlan {
            initial_size,
            initial_channels,
            latent_features,
            deconv_channels,
            deconv_geometry: ConvGeometry { kernel: 3, stride: 2, padding: 1 },
            output_channels: config.in_channels,
            output_geometry: ConvGeometry { kernel: 3, stride: 1, padding: 1 },
        },
    )
}



/// Halving `n` times is dividing by two to the `n`.
proof fn lemma_halve_is_division(s: nat, n: nat)
    ensures
        halve(s, n) == s / pow2(n),
    decreases n,
{
    if n == 0 {
        vstd::arithmetic::power2::lemma2_to64();
        assert(s / pow2(n) == s / 1);
    } else {
        let m = (n - 1) as nat;
        lemma_halve_is_division(s, m);
        lemma_pow2_double(m);
        assert(m + 1 == n);
        let p = pow2(m);
        vstd::arithmetic::div_mod::lemma_div_denominator(s as int, p as int, 2);
        assert(halve(s, n) == halve(s, m) / 2);
        assert(halve(s, m) == s / p);
        assert((s as int / p as int) / 2 == s as int / (p as int * 2));
        assert(p * 2 == pow2(n));
        assert(s / pow2(n) == s as int / (p as int * 2));
    }
}

/// From the second block on, the encoder's channels are the base channels
/// doubled once per block, capped at `MAX_CHANNELS`.
proof fn lemma_enc_out_closed_form(base: nat, i: nat)
    requires
        i >= 1 || base <= MAX_CHANNELS,
    ensures
        enc_out(base, i) == if base * pow2(i) < MAX_CHANNELS {
            base * pow2(i)
        } else {
            MAX_CHANNELS as nat
        },
    decreases i,
{
    if i == 0 {
        vstd::arithmetic::power2::lemma2_to64();
        assert(base * pow2(0) == base);
    } else {
        let m = (i - 1) as nat;
        lemma_pow2_double(m);
        assert(m + 1 == i);
        let p = pow2(m);
        assert(base * pow2(i) == 2 * (base * p)) by (nonlinear_arith)
            requires
                pow2(i) == 2 * p,
        ;
        if m >= 1 || base <= MAX_CHANNELS {
            lemma_enc_out_closed_form(base, m);
        } else {
            // A single first block above the cap: the next block is capped.
            assert(enc_out(base, m) == base);
            assert(base * p == base) by (nonlinear_arith)
                requires
                    p == 1,
            ;
            vstd::arithmetic::power2::lemma2_to64();
        }
    }
}

/// The decoder starts where the encoder ends: its first feature map has the
/// side the encoder's output has, and, unless a single block starts above the
/// channel cap, the channels the encoder's output has.
pub proof fn law_decoder_mirrors_encoder(c: VaeConfig)
    requires
        c.num_blocks >= 1,
        c.num_blocks >= 2 || c.base_channels <= MAX_CHANNELS,
    ensures
        dec_initial_size(c) == halve(c.image_size as nat, c.num_blocks as nat),
        dec_initial_channels(c) == enc_in(c, c.num_blocks as nat),
{
    lemma_halve_is_division(c.image_size as nat, c.num_blocks as nat);
    let m = (c.num_blocks - 1) as nat;
    lemma_enc_out_closed_form(c.base_channels as nat, m);
}


/// The encoder's channel schedule and feature size, stated over the blocks:
/// the first block reads the image channels and each later one the channels
/// of the block before; the first block outputs the base channels and each
/// later one twice the previous block's output, capped at `MAX_CHANNELS`; and
/// the flattened features are the last block's output channels (the image
/// channels without blocks) times the image side divided by two to the number
/// of blocks, squared.
pub proof fn law_encoder_schedule(c: VaeConfig)
    ensures
        enc_in(c, 0) == c.in_channels,
        enc_out(c.base_channels as nat, 0) == c.base_channels,
        forall|i: nat| 1 <= i ==> #[trigger] enc_in(c, i) == enc_out(c.base_channels as nat, (i - 1) as nat),
        forall|i: nat|
            1 <= i ==> #[trigger] enc_out(c.base_channels as nat, i) == if 2 * enc_out(
                c.base_channels as nat,
                (i - 1) as nat,
            ) < MAX_CHANNELS {
                2 * enc_out(c.base_channels as nat, (i - 1) as nat)
            } else {
                MAX_CHANNELS as nat
            },
        enc_feature_size(c) == (if c.num_blocks == 0 {
            c.in_channels as nat
        } else {
            enc_out(c.base_channels as nat, (c.num_blocks - 1) as nat)
        }) * (c.image_size as nat / pow2(c.num_blocks as nat)) * (c.image_size as nat / pow2(
            c.num_blocks as nat,
        )),
{
    lemma_halve_is_division(c.image_size as nat, c.num_blocks as nat);
}

/// The decoder's shapes, stated over the blocks: the first feature map has
/// the image side divided by two to the number of blocks and at most
/// `MAX_CHANNELS` channels, and the latent projection fills it exactly; the
/// first block reads the first map's channels and each later one the channels
/// of the block before; the last block gives back the image channels; the
/// first block otherwise halves the first map's channels, and each later
/// block halves the previous block's output but never goes below the base
/// channels.
pub proof fn law_decoder_schedule(c: VaeConfig)
    requires
        c.num_blocks >= 1,
    ensures
        dec_initial_size(c) == c.image_size as nat / pow2(c.num_blocks as nat),
        dec_initial_channels(c) <= MAX_CHANNELS,
        dec_latent_features(c) == dec_initial_channels(c) * dec_initial_size(c) * dec_initial_size(c),
        dec_in(c, 0) == dec_initial_channels(c),
        forall|i: nat| 1 <= i < c.num_blocks ==> #[trigger] dec_in(c, i) == dec_out(c, (i - 1) as nat),
        dec_out(c, (c.num_blocks - 1) as nat) == c.in_channels,
        c.num_blocks > 1 ==> dec_out(c, 0) == dec_initial_channels(c) / 2,
        forall|i: nat|
            1 <= i < c.num_blocks - 1 ==> #[trigger] dec_out(c, i) == if dec_out(c, (i - 1) as nat)
                / 2 < c.base_channels {
                c.base_channels as nat
            } else {
                dec_out(c, (i - 1) as nat) / 2
            },
        forall|i: nat| 1 <= i < c.num_blocks - 1 ==> #[trigger] dec_out(c, i) >= c.base_channels,
{
}

// ---------------------------------------------------------------------------
// Spatial sizes
// ---------------------------------------------------------------------------

/// Side length after a convolution of geometry `g` of a map of side `s`, as
/// `(s + 2 * padding - kernel) / stride + 1`.
pub open spec fn conv_side(g: ConvGeometry, s: nat) -> nat {
    ((s + 2 * g.padding - g.kernel) as nat) / (g.stride as nat) + 1
}

/// Side length after a transposed convolution of geometry `g` (no output
/// padding) of a map of side `s`, as `(s - 1) * stride + kernel - 2 * padding`.
pub open spec fn deconv_side(g: ConvGeometry, s: nat) -> nat {
    ((s - 1) * g.stride + g.kernel - 2 * g.padding) as nat
}

/// Side length after one encoder convolution (3 by 3, stride 2, padding 1)
/// of a map of side `s >= 1`.
pub open spec fn conv_out(s: nat) -> nat {
    conv_side(ConvGeometry { kernel: 3, stride: 2, padding: 1 }, s)
}

/// Side length after `n` encoder convolutions.
pub open spec fn conv_chain(s: nat, n: nat) -> nat
    decreases n,
{
    if n == 0 {
        s
    } else {
        conv_out(conv_chain(s, (n - 1) as nat))
    }
}

/// Side length after one decoder transposed convolution (3 by 3, stride 2,
/// padding 1, no output padding) of a map of side `s >= 1`.
pub open spec fn deconv_out(s: nat) -> nat {
    deconv_side(ConvGeometry { kernel: 3, stride: 2, padding: 1 }, s)
}

/// Side length after `n` decoder transposed convolutions.
pub open spec fn deconv_chain(s: nat, n: nat) -> nat
    decreases n,
{
    if n == 0 {
        s
    } else {
        deconv_out(deconv_chain(s, (n - 1) as nat))
    }
}

/// Side length of the map an encoder convolution makes of a map of side
/// `size`; `None` for an empty map, which the convolution cannot take.
pub fn encoder_conv_output_size(size: usize) -> (res: Option<usize>)
    ensures
        size == 0 ==> res is None,
        size > 0 ==> res == Some(conv_out(size as nat) as usize),
{
    if size == 0 {
        None
    } else {
        Some((size - 1) / 2 + 1)
    }
}

/// Side length of the map a decoder transposed convolution makes of a map of
/// side `size`; `None` for an empty map or where the size leaves `usize`.
pub fn decoder_deconv_output_size(size: usize) -> (res: Option<usize>)
    ensures
        size == 0 ==> res is None,
        size > 0 && deconv_out(size as nat) <= usize::MAX ==> res == Some(
            deconv_out(size as nat) as usize,
        ),
        size > 0 && deconv_out(size as nat) > usize::MAX ==> res is None,
{
    if size == 0 || size - 1 > (usize::MAX - 1) / 2 {
        None
    } else {
        Some((size - 1) * 2 + 1)
    }
}

/// Side length of the decoder's output image for `plan`: the first feature map
/// passed through every transposed convolution (the final convolution keeps
/// the size); `None` for an empty first map or where the size leaves `usize`.
pub fn decoder_output_size(plan: &DecoderPlan) -> (res: Option<usize>)
    ensures
        plan.initial_size == 0 ==> res is None,
        plan.initial_size > 0 && deconv_chain(plan.initial_size as nat, plan.deconv_channels@.len())
            <= usize::MAX ==> res == Some(
            deconv_chain(plan.initial_size as nat, plan.deconv_channels@.len()) as usize,
        ),
        res matches Some(n) ==> n == deconv_chain(
            plan.initial_size as nat,
            plan.deconv_channels@.len(),
        ),
{
    let mut size = plan.initial_size;
    if size == 0 {
        return None;
    }
    let blocks = plan.deconv_channels.len();
    let mut i: usize = 0;
    while i < blocks
        invariant
            blocks == plan.deconv_channels@.len(),
            i <= blocks,
            size > 0,
            size == deconv_chain(plan.initial_size as nat, i as nat),
            plan.initial_size > 0,
        decreases blocks - i,
    {
        proof {
            lemma_deconv_chain_grows(plan.initial_size as nat, (i + 1) as nat, blocks as nat);
        }
        match decoder_deconv_output_size(size) {
            Some(next) => {
                size = next;
            },
            None => {
                return None;
            },
        }
        i = i + 1;
    }
    Some(size)
}

/// The decoder's sizes only grow along the chain of transposed convolutions.
proof fn lemma_deconv_chain_grows(s: nat, i: nat, n: nat)
    requires
        s > 0,
        i <= n,
    ensures
        deconv_chain(s, i) >= 1,
        deconv_chain(s, i) <= deconv_chain(s, n),
    decreases n,
{
    if n > i {
        lemma_deconv_chain_grows(s, i, (n - 1) as nat);
    } else if i > 0 {
        lemma_deconv_chain_grows(s, (i - 1) as nat, (i - 1) as nat);
    }
}

/// Whether a decoder output of `height` by `width` falls short of the target
/// image size on both sides, the case in which the decoder warns.
pub fn output_below_target(height: usize, width: usize) -> (res: bool)
    ensures
        res == (height < TARGET_IMAGE_SIZE && width < TARGET_IMAGE_SIZE),
{
    height < TARGET_IMAGE_SIZE && width < TARGET_IMAGE_SIZE
}

/// Each transposed convolution doubles the side less one, so after `n` of
/// them a map of side `s >= 1` has side `(s - 1) * 2^n + 1`.
pub proof fn law_decoder_output_size(s: nat, n: nat)
    requires
        s >= 1,
    ensures
        deconv_chain(s, n) == (s - 1) * pow2(n) + 1,
    decreases n,
{
    if n == 0 {
        vstd::arithmetic::power2::lemma2_to64();
        assert((s - 1) * pow2(n) == (s - 1) * 1);
    } else {
        let m = (n - 1) as nat;
        law_decoder_output_size(s, m);
        lemma_pow2_double(m);
        assert(m + 1 == n);
        let p = pow2(m);
        let prev = deconv_chain(s, m);
        assert(prev == (s - 1) * p + 1);
        assert(deconv_chain(s, n) == deconv_out(prev));
        assert(deconv_out(prev) == (prev - 1) * 2 + 1);
        assert(((s - 1) * p) * 2 == (s - 1) * (2 * p)) by (nonlinear_arith);
        assert(pow2(n) == 2 * p);
        assert((s - 1) * pow2(n) == (s - 1) * (2 * p));
    }
}

/// When the image side is a multiple of two to the number of blocks, the
/// encoder's convolutions halve it exactly, so the side that the encoder plan
/// assumes is the side its convolutions produce.
pub proof fn law_encoder_sizes_agree(s: nat, n: nat, m: nat)
    requires
        m >= 1,
        s == m * pow2(n),
    ensures
        conv_chain(s, n) == halve(s, n),
        halve(s, n) == m,
    decreases n,
{
    if n == 0 {
        vstd::arithmetic::power2::lemma2_to64();
    } else {
        lemma_pow2_double((n - 1) as nat);
        assert((n - 1) as nat + 1 == n);
        let p = pow2((n - 1) as nat);
        assert(s == (2 * m) * p) by (nonlinear_arith)
            requires
                s == m * (2 * p),
        ;
        law_encoder_sizes_agree(s, (n - 1) as nat, 2 * m);
        assert(conv_out(2 * m) == m);
    }
}

// ---------------------------------------------------------------------------
// Loss
// ---------------------------------------------------------------------------

/// How the loss lines up a reconstruction with its input image.
#[derive(Debug, Clone, Copy, PartialEq, Eq, Structural)]
pub enum LossAlignment {
    /// The sizes agree: the images are compared pixel by pixel.
    Direct,
    /// The reconstruction is smaller: the input image is average-pooled down to
    /// `height` by `width`. `crop_top` and `crop_left` are the offsets of the
    /// centred region of that size within the input image.
    PoolInput { height: usize, width: usize, crop_top: usize, crop_left: usize },
}

/// How the loss compares a reconstruction of `recon_height` by `recon_width`
/// with an input image of `input_height` by `input_width`; `None` when the sizes
/// differ and the reconstruction is larger on a side, which has no centred
/// region inside the input image.
pub fn loss_alignment(
    input_height: usize,
    input_width: usize,
    recon_height: usize,
    recon_width: usize,
) -> (res: Option<LossAlignment>)
    ensures
        recon_height == input_height && recon_width == input_width ==> res == Some(
            LossAlignment::Direct,
        ),
        !(recon_height == input_height && recon_width == input_width) ==> {
            if recon_height <= input_height && recon_width <= input_width {
                res == Some(
                    LossAlignment::PoolInput {
                        height: recon_height,
                        width: recon_width,
                        crop_top: ((input_height - recon_height) / 2) as usize,
                        crop_left: ((input_width - recon_width) / 2) as usize,
                    },
                )
            } else {
                res is None
            }
        },
{
    if recon_height == input_height && recon_width == input_width {
        Some(LossAlignment::Direct)
    } else if recon_height <= input_height && recon_width <= input_width {
        Some(
            LossAlignment::PoolInput {
                height: recon_height,
                width: recon_width,
                crop_top: (input_height - recon_height) / 2,
                crop_left: (input_width - recon_width) / 2,
            },
        )
    } else {
        None
    }
}

// ---------------------------------------------------------------------------
// Batches
// ---------------------------------------------------------------------------

/// `std::path::PathBuf`, carried through as the location of an image.
#[verifier::external_type_specification]
#[verifier::external_body]
pub struct ExPathBuf(std::path::PathBuf);

/// `Clone::clone` of `std::path::PathBuf`, which copies the path; nothing is
/// claimed of the copy, which the library only carries.
pub assume_specification[ <std::path::PathBuf as Clone>::clone ](p: &std::path::PathBuf) -> std::path::PathBuf;

/// One training example: an image file and its class label.
#[derive(Clone, Debug)]
pub struct VaeItem {
    pub image_path: std::path::PathBuf,
    pub label: u32,
}

/// The pixel bytes and labels of a batch, and the shape of its image tensor.
pub struct BatchData {
    /// Bytes of the images that loaded, one after another, each in channel,
    /// row, column order: the red plane, then the green, then the blue.
    pub pixels: Vec<u8>,
    /// Labels of the items whose image loaded, in item order.
    pub labels: Vec<u32>,
    /// `[items, 3, TARGET_IMAGE_SIZE, TARGET_IMAGE_SIZE]`.
    pub shape: [usize; 4],
}

/// An RGB image stored row by row with three channel bytes per pixel,
/// rearranged into channel, row, column order.
pub open spec fn channels_first(rgb: Seq<u8>) -> Seq<u8> {
    Seq::new(
        IMAGE_BYTES as nat,
        |k: int| rgb[(k % IMAGE_PIXELS as int) * 3 + k / IMAGE_PIXELS as int],
    )
}

/// The bytes of the images that loaded, in order, each rearranged into
/// channel, row, column order.
pub open spec fn loaded_pixels(images: Seq<Option<Vec<u8>>>) -> Seq<u8>
    decreases images.len(),
{
    if images.len() == 0 {
        Seq::empty()
    } else {
        let rest = loaded_pixels(images.drop_last());
        match images.last() {
            Some(img) => rest + channels_first(img@),
            None => rest,
        }
    }
}

/// The labels of the items whose image loaded, in order.
pub open spec fn loaded_labels(labels: Seq<u32>, images: Seq<Option<Vec<u8>>>) -> Seq<u32>
    decreases images.len(),
{
    if images.len() == 0 || labels.len() == 0 {
        Seq::empty()
    } else {
        let rest = loaded_labels(labels.drop_last(), images.drop_last());
        match images.last() {
            Some(_) => rest.push(labels.last()),
            None => rest,
        }
    }
}

/// The number of images that loaded.
pub open spec fn loaded_count(images: Seq<Option<Vec<u8>>>) -> nat
    decreases images.len(),
{
    if images.len() == 0 {
        0
    } else {
        loaded_count(images.drop_last()) + if images.last() is Some {
            1nat
        } else {
            0nat
        }
    }
}

/// Every image is present and holds exactly one RGB image of the target size.
pub open spec fn images_well_sized(images: Seq<Option<Vec<u8>>>) -> bool {
    forall|i: int|
        0 <= i < images.len() ==> (#[trigger] images[i] matches Some(img) ==> img@.len()
            == IMAGE_BYTES)
}

proof fn lemma_loaded_sizes(images: Seq<Option<Vec<u8>>>)
    requires
        images_well_sized(images),
    ensures
        loaded_pixels(images).len() == IMAGE_BYTES * loaded_count(images),
        loaded_count(images) <= images.len(),
        loaded_count(images) == images.len() <==> (forall|i: int|
            0 <= i < images.len() ==> #[trigger] images[i] is Some),
    decreases images.len(),
{
    if images.len() > 0 {
        let init = images.drop_last();
        assert forall|i: int| 0 <= i < init.len() implies (#[trigger] init[i] matches Some(img)
            ==> img@.len() == IMAGE_BYTES) by {
            assert(init[i] == images[i]);
        }
        lemma_loaded_sizes(init);
        if loaded_count(images) == images.len() {
            assert forall|i: int| 0 <= i < images.len() implies #[trigger] images[i] is Some by {
                if i < images.len() - 1 {
                    assert(init[i] == images[i]);
                }
            }
        }
        if forall|i: int| 0 <= i < images.len() ==> #[trigger] images[i] is Some {
            assert forall|i: int| 0 <= i < init.len() implies #[trigger] init[i] is Some by {
                assert(init[i] == images[i]);
            }
            assert(images[images.len() - 1] is Some);
        }
    }
}

/// Appends the bytes of the RGB image `rgb`, stored row by row with three
/// channel bytes per pixel, in channel, row, column order.
fn append_channels_first(dst: &mut Vec<u8>, rgb: &Vec<u8>)
    requires
        rgb@.len() == IMAGE_BYTES,
    ensures
        final(dst)@ == old(dst)@ + channels_first(rgb@),
{
    let ghost before = dst@;
    let ghost target = channels_first(rgb@);
    let mut c: usize = 0;
    while c < 3
        invariant
            c <= 3,
            rgb@.len() == IMAGE_BYTES,
            target == channels_first(rgb@),
            dst@ == before + target.take((c * IMAGE_PIXELS) as int),
        decreases 3 - c,
    {
        let mut p: usize = 0;
        while p < IMAGE_PIXELS
            invariant
                c < 3,
                p <= IMAGE_PIXELS,
                rgb@.len() == IMAGE_BYTES,
                target == channels_first(rgb@),
                dst@ == before + target.take((c * IMAGE_PIXELS + p) as int),
            decreases IMAGE_PIXELS - p,
        {
            let k = c * IMAGE_PIXELS + p;
            proof {
                vstd::arithmetic::div_mod::lemma_fundamental_div_mod_converse(
                    k as int,
                    IMAGE_PIXELS as int,
                    c as int,
                    p as int,
                );
                assert(target[k as int] == rgb@[(p * 3 + c) as int]);
            }
            dst.push(rgb[p * 3 + c]);
            p = p + 1;
            assert(dst@ =~= before + target.take((c * IMAGE_PIXELS + p) as int));
        }
        c = c + 1;
    }
    assert(target.take((3 * IMAGE_PIXELS) as int) =~= target);
}

/// Channel-first order puts channel `c` of pixel `p` (counted row by row) at
/// `c * IMAGE_PIXELS + p`, where the row-by-row RGB bytes hold it at
/// `3 * p + c`; an image keeps its size.
pub proof fn law_channels_first_layout(rgb: Seq<u8>, c: int, p: int)
    requires
        0 <= c < 3,
        0 <= p < IMAGE_PIXELS,
    ensures
        channels_first(rgb).len() == IMAGE_BYTES,
        channels_first(rgb)[c * IMAGE_PIXELS + p] == rgb[3 * p + c],
{
    let k = c * IMAGE_PIXELS + p;
    vstd::arithmetic::div_mod::lemma_fundamental_div_mod_converse(
        k,
        IMAGE_PIXELS as int,
        c,
        p,
    );
    assert(0 <= k < IMAGE_BYTES);
}

/// A batch carries one label for each image that loaded.
pub proof fn law_one_label_per_loaded_image(labels: Seq<u32>, images: Seq<Option<Vec<u8>>>)
    requires
        labels.len() == images.len(),
    ensures
        loaded_labels(labels, images).len() == loaded_count(images),
    decreases images.len(),
{
    if images.len() > 0 {
        law_one_label_per_loaded_image(labels.drop_last(), images.drop_last());
    }
}

/// When every image loads, the batch carries every label, in item order, and
/// the bytes of item `i` fill the `i`-th block of `IMAGE_BYTES`, channel `c`
/// of its pixel `p` at `c * IMAGE_PIXELS + p` within the block.
pub proof fn law_full_batch(labels: Seq<u32>, images: Seq<Option<Vec<u8>>>)
    requires
        labels.len() == images.len(),
        images_well_sized(images),
        forall|i: int| 0 <= i < images.len() ==> #[trigger] images[i] is Some,
    ensures
        loaded_labels(labels, images) == labels,
        loaded_count(images) == images.len(),
        loaded_pixels(images).len() == images.len() * IMAGE_BYTES,
        forall|i: int, c: int, p: int|
            0 <= i < images.len() && 0 <= c < 3 && 0 <= p < IMAGE_PIXELS ==> #[trigger] loaded_pixels(
                images,
            )[i * IMAGE_BYTES + c * IMAGE_PIXELS + p] == (#[trigger] images[i])->0@[3 * p + c],
    decreases images.len(),
{
    lemma_loaded_sizes(images);
    if images.len() > 0 {
        let init = images.drop_last();
        let n: int = init.len() as int;
        assert forall|i: int| 0 <= i < init.len() implies (#[trigger] init[i] matches Some(img)
            ==> img@.len() == IMAGE_BYTES) by {
            assert(init[i] == images[i]);
        }
        assert forall|i: int| 0 <= i < init.len() implies #[trigger] init[i] is Some by {
            assert(init[i] == images[i]);
        }
        law_full_batch(labels.drop_last(), init);
        assert(images[n] is Some);
        assert(labels.drop_last().push(labels.last()) =~= labels);
        let last = images.last()->0@;
        assert(loaded_pixels(images) == loaded_pixels(init) + channels_first(last));
        assert(loaded_pixels(images).len() == images.len() * IMAGE_BYTES) by (nonlinear_arith)
            requires
                loaded_pixels(images).len() == IMAGE_BYTES * loaded_count(images),
                loaded_count(images) == images.len(),
        ;
        assert forall|i: int, c: int, p: int|
            0 <= i < images.len() && 0 <= c < 3 && 0 <= p < IMAGE_PIXELS implies #[trigger] loaded_pixels(
                images,
            )[i * IMAGE_BYTES + c * IMAGE_PIXELS + p] == (#[trigger] images[i])->0@[3 * p + c] by {
            let k = i * IMAGE_BYTES + c * IMAGE_PIXELS + p;
            let r = c * IMAGE_PIXELS + p;
            assert(0 <= r < IMAGE_BYTES) by (nonlinear_arith)
                requires
                    0 <= c < 3,
                    0 <= p < IMAGE_PIXELS,
                    r == c * IMAGE_PIXELS + p,
            ;
            if i < n {
                assert(k < n * IMAGE_BYTES) by (nonlinear_arith)
                    requires
                        0 <= i < n,
                        0 <= r < IMAGE_BYTES,
                        k == i * IMAGE_BYTES + r,
                ;
                assert(loaded_pixels(init).len() == n * IMAGE_BYTES);
                assert(loaded_pixels(images)[k] == loaded_pixels(init)[k]);
                assert(init[i] == images[i]);
            } else {
                assert(i == n);
                law_channels_first_layout(last, c, p);
                assert(k - n * IMAGE_BYTES == r);
                assert(loaded_pixels(images)[k] == channels_first(last)[r]);
            }
        }
    }
}

// ---------------------------------------------------------------------------
// Loading images
// ---------------------------------------------------------------------------

/// The filter with which images are resized.
#[derive(Debug, Clone, Copy, PartialEq, Eq, Structural)]
pub enum ResizeFilter {
    /// Lanczos with window 3.
    Lanczos3,
}

/// The RGB bytes, row by row with three channel bytes per pixel, of the image
/// that `bytes` encode in the format that the file extension `extension`
/// names, resized to `width` by `height` with `filter`; `None` when the
/// extension names no format the decoder knows or the bytes do not decode in
/// it.
pub uninterp spec fn decoded_rgb(
    bytes: Seq<u8>,
    extension: Seq<char>,
    width: u32,
    height: u32,
    filter: ResizeFilter,
) -> Option<Seq<u8>>;

/// `image::ImageFormat::from_extension` on `extension`, then
/// `image::load_from_memory_with_format` on `bytes`, then
/// `image::DynamicImage::resize_exact` to `width` by `height` with `filter`,
/// converted by `to_rgb8` into its bytes: the resized image has exactly the
/// given size, so a result has `width * height * 3` bytes. Sizes whose
/// working buffers would not fit in memory are left out.
#[verifier::external_body]
fn decode_resized_rgb(
    bytes: &[u8],
    extension: &str,
    width: u32,
    height: u32,
    filter: ResizeFilter,
) -> (res: Option<Vec<u8>>)
    requires
        width * height * 16 <= isize::MAX,
    ensures
        match res {
            Some(rgb) => decoded_rgb(bytes@, extension@, width, height, filter) == Some(rgb@)
                && rgb@.len() == width * height * 3,
            None => decoded_rgb(bytes@, extension@, width, height, filter) is None,
        },
{
    let filter = match filter {
        ResizeFilter::Lanczos3 => image::imageops::FilterType::Lanczos3,
    };
    let format = image::ImageFormat::from_extension(extension)?;
    let img = image::load_from_memory_with_format(bytes, format).ok()?;
    Some(img.resize_exact(width, height, filter).to_rgb8().into_raw())
}

/// The bytes an optional byte vector holds.
pub open spec fn bytes_of(v: Option<Vec<u8>>) -> Option<Seq<u8>> {
    match v {
        Some(b) => Some(b@),
        None => None,
    }
}

/// The characters an optional string holds.
pub open spec fn chars_of_opt(s: Option<String>) -> Option<Seq<char>> {
    match s {
        Some(t) => Some(t@),
        None => None,
    }
}

/// The RGB bytes of an image file with extension `extension` (`None` when
/// the path has none, or one that is not Unicode) and contents `file`
/// (`None` when it could not be read), resized to the target size with the
/// Lanczos3 filter.
pub open spec fn image_file_rgb(extension: Option<Seq<char>>, file: Option<Seq<u8>>) -> Option<
    Seq<u8>,
> {
    match (extension, file) {
        (Some(ext), Some(bytes)) => decoded_rgb(
            bytes,
            ext,
            TARGET_IMAGE_SIZE as u32,
            TARGET_IMAGE_SIZE as u32,
            ResizeFilter::Lanczos3,
        ),
        _ => None,
    }
}

/// The RGB bytes of the image file with extension `extension` and contents
/// `file`, resized to the target size; `None` when the file could not be
/// read, its extension names no image format, or its contents do not decode
/// in that format.
pub fn load_image_rgb(extension: Option<&str>, file: Option<&[u8]>) -> (res: Option<Vec<u8>>)
    ensures
        bytes_of(res) == image_file_rgb(
            match extension {
                Some(e) => Some(e@),
                None => None,
            },
            match file {
                Some(f) => Some(f@),
                None => None,
            },
        ),
        res matches Some(rgb) ==> rgb@.len() == IMAGE_BYTES,
        extension is None || file is None ==> res is None,
        extension matches Some(e) ==> (file matches Some(f) ==> bytes_of(res) == decoded_rgb(
            f@,
            e@,
            512u32,
            512u32,
            ResizeFilter::Lanczos3,
        )),
{
    match (extension, file) {
        (Some(ext), Some(bytes)) => decode_resized_rgb(
            bytes,
            ext,
            TARGET_IMAGE_SIZE as u32,
            TARGET_IMAGE_SIZE as u32,
            ResizeFilter::Lanczos3,
        ),
        _ => None,
    }
}

/// A readable image file with an extension is decoded in the format that the
/// extension names and resized to exactly 512 by 512 pixels with the Lanczos3
/// filter; without the file or the extension there is no image.
pub proof fn law_images_resized_to_target(extension: Option<Seq<char>>, file: Option<Seq<u8>>)
    ensures
        extension matches Some(e) ==> (file matches Some(b) ==> image_file_rgb(extension, file)
            == decoded_rgb(b, e, 512u32, 512u32, ResizeFilter::Lanczos3)),
        extension is None || file is None ==> image_file_rgb(extension, file) is None,
{
}

/// `res` is the batch that `assemble_batch` makes of `items` and `images`,
/// where each image is what the item's file, with its extension, decodes to.
pub open spec fn batch_of(
    items: Seq<VaeItem>,
    extensions: Seq<Option<String>>,
    files: Seq<Option<Vec<u8>>>,
    images: Seq<Option<Vec<u8>>>,
    res: BatchData,
) -> bool {
    &&& images.len() == items.len()
    &&& images_well_sized(images)
    &&& forall|i: int|
        0 <= i < images.len() ==> bytes_of(#[trigger] images[i]) == image_file_rgb(
            chars_of_opt(extensions[i]),
            bytes_of(files[i]),
        )
    &&& res.pixels@ == loaded_pixels(images)
    &&& res.labels@ == loaded_labels(items.map_values(|it: VaeItem| it.label), images)
    &&& res.shape@ == seq![items.len() as usize, 3usize, TARGET_IMAGE_SIZE, TARGET_IMAGE_SIZE]
}

/// Loads the image of each item from the extension of its path (`None` when
/// it has none, or one that is not Unicode) and its file contents (`None`
/// where the file could not be read), and assembles the batch: the images
/// that load, their labels, and a shape that counts every item.
pub fn load_batch(
    items: &Vec<VaeItem>,
    extensions: &Vec<Option<String>>,
    files: &Vec<Option<Vec<u8>>>,
) -> (res: BatchData)
    requires
        extensions@.len() == items@.len(),
        files@.len() == items@.len(),
    ensures
        exists|images: Seq<Option<Vec<u8>>>| #[trigger]
            batch_of(items@, extensions@, files@, images, res),
{
    let mut images: Vec<Option<Vec<u8>>> = Vec::new();
    let mut i: usize = 0;
    while i < files.len()
        invariant
            extensions@.len() == items@.len(),
            files@.len() == items@.len(),
            i <= files@.len(),
            images@.len() == i,
            images_well_sized(images@),
            forall|k: int|
                0 <= k < i ==> bytes_of(#[trigger] images@[k]) == image_file_rgb(
                    chars_of_opt(extensions@[k]),
                    bytes_of(files@[k]),
                ),
        decreases files@.len() - i,
    {
        let file = match &files[i] {
            Some(bytes) => Some(bytes.as_slice()),
            None => None,
        };
        let extension = match &extensions[i] {
            Some(e) => Some(e.as_str()),
            None => None,
        };
        let rgb = load_image_rgb(extension, file);
        images.push(rgb);
        i = i + 1;
    }
    let ghost loaded = images@;
    let res = assemble_batch(items, images);
    assert(batch_of(items@, extensions@, files@, loaded, res));
    res
}

/// Assembles a batch from `items` and the RGB bytes of their images, `None`
/// where an image could not be loaded: the bytes and labels of the images that
/// loaded, and a shape that counts every item. The pixel data fills that shape
/// exactly when every image loaded.
pub fn assemble_batch(items: &Vec<VaeItem>, images: Vec<Option<Vec<u8>>>) -> (res: BatchData)
    requires
        images@.len() == items@.len(),
        images_well_sized(images@),
    ensures
        res.pixels@ == loaded_pixels(images@),
        res.labels@ == loaded_labels(items@.map_values(|it: VaeItem| it.label), images@),
        res.shape@ == seq![items@.len() as usize, 3usize, TARGET_IMAGE_SIZE, TARGET_IMAGE_SIZE],
        res.pixels@.len() == IMAGE_BYTES * loaded_count(images@),
        (res.pixels@.len() == items@.len() * IMAGE_BYTES) <==> (forall|i: int|
            0 <= i < images@.len() ==> #[trigger] images@[i] is Some),
{
    let ghost all_labels = items@.map_values(|it: VaeItem| it.label);
    let mut pixels: Vec<u8> = Vec::new();
    let mut labels: Vec<u32> = Vec::new();
    let mut i: usize = 0;
    while i < images.len()
        invariant
            images@.len() == items@.len(),
            all_labels == items@.map_values(|it: VaeItem| it.label),
            images_well_sized(images@),
            i <= images@.len(),
            pixels@ == loaded_pixels(images@.take(i as int)),
            labels@ == loaded_labels(all_labels.take(i as int), images@.take(i as int)),
        decreases images@.len() - i,
    {
        let ghost before = pixels@;
        proof {
            assert(images@.take(i + 1).drop_last() =~= images@.take(i as int));
            assert(all_labels.take(i + 1).drop_last() =~= all_labels.take(i as int));
        }
        match &images[i] {
            Some(img) => {
                append_channels_first(&mut pixels, img);
                labels.push(items[i].label);
            },
            None => {},
        }
        i = i + 1;
    }
    proof {
        assert(images@.take(i as int) =~= images@);
        assert(all_labels.take(i as int) =~= all_labels);
        lemma_loaded_sizes(images@);
        let n = loaded_count(images@);
        let m = items@.len();
        if n < m {
            assert(IMAGE_BYTES * n < m * IMAGE_BYTES) by (nonlinear_arith)
                requires
                    n < m,
            ;
        }
    }
    BatchData { pixels, labels, shape: [items.len(), 3, TARGET_IMAGE_SIZE, TARGET_IMAGE_SIZE] }
}

} // verus!
