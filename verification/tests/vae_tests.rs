use burn_gradient_demo_app::vae::{
    assemble_batch, decoder_deconv_output_size, decoder_output_size, decoder_plan,
    encoder_conv_output_size, encoder_plan, load_batch, load_image_rgb, loss_alignment,
    output_below_target, ConvGeometry, LossAlignment, VaeConfig, VaeItem, IMAGE_BYTES,
    IMAGE_PIXELS,
};
use std::path::PathBuf;

#[test]
fn default_config() {
    let c = VaeConfig::default();
    assert_eq!(c.image_size, 512);
    assert_eq!(c.in_channels, 3);
    assert_eq!(c.latent_dim, 256);
    assert_eq!(c.num_classes, 90);
    assert_eq!(c.base_channels, 32);
    assert_eq!(c.num_blocks, 4);
}

#[test]
fn encoder_plan_for_default_config() {
    let p = encoder_plan(&VaeConfig::default()).unwrap();
    assert_eq!(p.conv_channels, vec![(3, 32), (32, 64), (64, 128), (128, 256)]);
    assert_eq!(p.feature_size, 256 * 32 * 32);
    assert_eq!(p.latent_dim, 256);
    assert_eq!(p.num_classes, 90);
}

#[test]
fn encoder_channels_are_capped() {
    let c = VaeConfig { base_channels: 100, num_blocks: 5, ..VaeConfig::default() };
    let p = encoder_plan(&c).unwrap();
    assert_eq!(p.conv_channels, vec![(3, 100), (100, 200), (200, 256), (256, 256), (256, 256)]);
    assert_eq!(p.feature_size, 256 * 16 * 16);
}

#[test]
fn encoder_without_blocks_flattens_the_image() {
    let c = VaeConfig { image_size: 4, num_blocks: 0, ..VaeConfig::default() };
    let p = encoder_plan(&c).unwrap();
    assert!(p.conv_channels.is_empty());
    assert_eq!(p.feature_size, 3 * 4 * 4);
}

#[test]
fn encoder_overflow_is_refused() {
    let c = VaeConfig { base_channels: usize::MAX, ..VaeConfig::default() };
    assert!(encoder_plan(&c).is_none());
    let c = VaeConfig { image_size: usize::MAX, num_blocks: 0, ..VaeConfig::default() };
    assert!(encoder_plan(&c).is_none());
}

#[test]
fn decoder_plan_for_default_config() {
    let p = decoder_plan(&VaeConfig::default()).unwrap();
    assert_eq!(p.initial_size, 32);
    assert_eq!(p.initial_channels, 256);
    assert_eq!(p.latent_features, 256 * 32 * 32);
    assert_eq!(p.deconv_channels, vec![(256, 128), (128, 64), (64, 32), (32, 3)]);
    assert_eq!(p.output_channels, 3);
    assert_eq!(decoder_output_size(&p), Some(497));
}

#[test]
fn decoder_channels_never_fall_below_base() {
    let c = VaeConfig { base_channels: 8, num_blocks: 3, image_size: 64, ..VaeConfig::default() };
    let p = decoder_plan(&c).unwrap();
    assert_eq!(p.initial_size, 8);
    assert_eq!(p.initial_channels, 32);
    assert_eq!(p.deconv_channels, vec![(32, 16), (16, 8), (8, 3)]);
    assert_eq!(decoder_output_size(&p), Some(57));
}

#[test]
fn decoder_refuses_what_would_panic() {
    let c = VaeConfig { num_blocks: 0, ..VaeConfig::default() };
    assert!(decoder_plan(&c).is_none());
    let c = VaeConfig { num_blocks: 200, ..VaeConfig::default() };
    assert!(decoder_plan(&c).is_none());
    let c = VaeConfig { base_channels: usize::MAX, ..VaeConfig::default() };
    assert!(decoder_plan(&c).is_none());
}

#[test]
fn decoder_with_empty_first_map_has_no_output_size() {
    let c = VaeConfig { image_size: 8, ..VaeConfig::default() };
    let p = decoder_plan(&c).unwrap();
    assert_eq!(p.initial_size, 0);
    assert_eq!(decoder_output_size(&p), None);
}

#[test]
fn convolution_sizes() {
    assert_eq!(encoder_conv_output_size(512), Some(256));
    assert_eq!(encoder_conv_output_size(7), Some(4));
    assert_eq!(encoder_conv_output_size(1), Some(1));
    assert_eq!(encoder_conv_output_size(0), None);
    assert_eq!(decoder_deconv_output_size(32), Some(63));
    assert_eq!(decoder_deconv_output_size(1), Some(1));
    assert_eq!(decoder_deconv_output_size(0), None);
    assert_eq!(decoder_deconv_output_size(usize::MAX), None);
}

#[test]
fn output_size_warning() {
    assert!(output_below_target(497, 497));
    assert!(!output_below_target(512, 512));
    assert!(!output_below_target(600, 400));
}

#[test]
fn loss_alignment_cases() {
    assert_eq!(loss_alignment(512, 512, 512, 512), Some(LossAlignment::Direct));
    assert_eq!(
        loss_alignment(512, 512, 497, 497),
        Some(LossAlignment::PoolInput { height: 497, width: 497, crop_top: 7, crop_left: 7 })
    );
    assert_eq!(loss_alignment(512, 512, 513, 100), None);
}

#[test]
fn batch_keeps_loaded_images_and_their_labels() {
    let items = vec![
        VaeItem { image_path: PathBuf::from("a.png"), label: 4 },
        VaeItem { image_path: PathBuf::from("b.png"), label: 9 },
        VaeItem { image_path: PathBuf::from("c.png"), label: 2 },
    ];
    let a = vec![1u8; IMAGE_BYTES];
    let c = vec![3u8; IMAGE_BYTES];
    let batch = assemble_batch(&items, vec![Some(a), None, Some(c)]);
    assert_eq!(batch.labels, vec![4, 2]);
    assert_eq!(batch.shape, [3, 3, 512, 512]);
    assert_eq!(batch.pixels.len(), 2 * IMAGE_BYTES);
    assert_eq!(batch.pixels[0], 1);
    assert_eq!(batch.pixels[IMAGE_BYTES], 3);
    assert_ne!(batch.pixels.len(), batch.shape.iter().product::<usize>());
}

#[test]
fn batch_fills_its_shape_when_all_images_load() {
    let items = vec![VaeItem { image_path: PathBuf::from("a.png"), label: 1 }];
    let batch = assemble_batch(&items, vec![Some(vec![7u8; IMAGE_BYTES])]);
    assert_eq!(batch.pixels.len(), batch.shape.iter().product::<usize>());
    assert_eq!(batch.labels, vec![1]);
}

#[test]
fn decoder_starts_where_encoder_ends() {
    let c = VaeConfig::default();
    let enc = encoder_plan(&c).unwrap();
    let dec = decoder_plan(&c).unwrap();
    let (_, enc_out_channels) = *enc.conv_channels.last().unwrap();
    assert_eq!(dec.initial_channels, enc_out_channels);
    assert_eq!(enc.feature_size, dec.latent_features);
    assert_eq!(dec.initial_size, 32);
}

#[test]
fn single_block_above_channel_cap_is_not_mirrored() {
    let c = VaeConfig { base_channels: 300, num_blocks: 1, ..VaeConfig::default() };
    let enc = encoder_plan(&c).unwrap();
    let dec = decoder_plan(&c).unwrap();
    assert_eq!(enc.conv_channels, vec![(3, 300)]);
    assert_eq!(dec.initial_channels, 256);
}

#[test]
fn encoder_convolutions_halve_a_divisible_image() {
    let mut size = 512;
    for _ in 0..4 {
        size = encoder_conv_output_size(size).unwrap();
    }
    assert_eq!(size, 32);
    // An odd side rounds up in the convolution but down in the plan.
    assert_eq!(encoder_conv_output_size(33), Some(17));
}

#[test]
fn decoder_output_follows_closed_form() {
    let mut size = 5;
    for _ in 0..3 {
        size = decoder_deconv_output_size(size).unwrap();
    }
    assert_eq!(size, (5 - 1) * 8 + 1);
}

#[test]
fn batch_pixels_are_channel_planes() {
    let items = vec![VaeItem { image_path: PathBuf::from("a.png"), label: 0 }];
    let rgb: Vec<u8> = (0..IMAGE_BYTES).map(|k| [10u8, 20, 30][k % 3]).collect();
    let batch = assemble_batch(&items, vec![Some(rgb)]);
    assert!(batch.pixels[..IMAGE_PIXELS].iter().all(|&b| b == 10));
    assert!(batch.pixels[IMAGE_PIXELS..2 * IMAGE_PIXELS].iter().all(|&b| b == 20));
    assert!(batch.pixels[2 * IMAGE_PIXELS..].iter().all(|&b| b == 30));

    let rgb: Vec<u8> = (0..IMAGE_BYTES).map(|k| (k % 251) as u8).collect();
    let batch = assemble_batch(&items, vec![Some(rgb.clone())]);
    for &(c, p) in &[(0usize, 0usize), (1, 5), (2, 1000), (0, IMAGE_PIXELS - 1), (2, 512 * 300 + 7)] {
        assert_eq!(batch.pixels[c * IMAGE_PIXELS + p], rgb[p * 3 + c]);
    }
}

#[test]
fn plans_carry_convolution_geometry() {
    let enc = encoder_plan(&VaeConfig::default()).unwrap();
    assert_eq!(enc.conv_geometry, ConvGeometry { kernel: 3, stride: 2, padding: 1 });
    let dec = decoder_plan(&VaeConfig::default()).unwrap();
    assert_eq!(dec.deconv_geometry, ConvGeometry { kernel: 3, stride: 2, padding: 1 });
    assert_eq!(dec.output_geometry, ConvGeometry { kernel: 3, stride: 1, padding: 1 });
}

fn png_bytes(r: u8, g: u8, b: u8) -> Vec<u8> {
    let img = image::RgbImage::from_pixel(8, 8, image::Rgb([r, g, b]));
    let mut out = std::io::Cursor::new(Vec::new());
    image::DynamicImage::ImageRgb8(img)
        .write_to(&mut out, image::ImageFormat::Png)
        .unwrap();
    out.into_inner()
}

#[test]
fn image_files_are_decoded_and_resized() {
    let png = png_bytes(200, 100, 50);
    let rgb = load_image_rgb(Some("png"), Some(&png)).unwrap();
    assert_eq!(rgb.len(), IMAGE_BYTES);
    assert_eq!(&rgb[..3], &[200, 100, 50]);
    // The extension is matched without regard to case.
    assert!(load_image_rgb(Some("PNG"), Some(&png)).is_some());
    // No file, no extension, one that names no format, or bytes of another format.
    assert!(load_image_rgb(Some("png"), None).is_none());
    assert!(load_image_rgb(None, Some(&png)).is_none());
    assert!(load_image_rgb(Some("txt"), Some(&png)).is_none());
    assert!(load_image_rgb(Some("jpg"), Some(&png)).is_none());
    assert!(load_image_rgb(Some("png"), Some(&[1, 2, 3])).is_none());
}

#[test]
fn batch_is_loaded_from_files() {
    let items = vec![
        VaeItem { image_path: PathBuf::from("a.png"), label: 5 },
        VaeItem { image_path: PathBuf::from("missing.png"), label: 6 },
        VaeItem { image_path: PathBuf::from("c.png"), label: 7 },
        VaeItem { image_path: PathBuf::from("d"), label: 8 },
    ];
    let exts = vec![
        Some("png".to_string()),
        Some("png".to_string()),
        Some("png".to_string()),
        None,
    ];
    let files = vec![
        Some(png_bytes(10, 20, 30)),
        None,
        Some(png_bytes(1, 2, 3)),
        Some(png_bytes(4, 4, 4)),
    ];
    let batch = load_batch(&items, &exts, &files);
    assert_eq!(batch.labels, vec![5, 7]);
    assert_eq!(batch.shape, [4, 3, 512, 512]);
    assert_eq!(batch.pixels.len(), 2 * IMAGE_BYTES);
    assert_eq!(batch.pixels[0], 10);
    assert_eq!(batch.pixels[IMAGE_PIXELS], 20);
    assert_eq!(batch.pixels[2 * IMAGE_PIXELS], 30);
    assert_eq!(batch.pixels[IMAGE_BYTES + IMAGE_PIXELS], 2);
}
