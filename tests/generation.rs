use all_rgb::generate::{default_pixels, generate_pixels, random_pixels, smooth_pixels};
use all_rgb::{
    calculate_color, calculate_color_raw, ColorDepth, ColorDepthData, GenerationMethod, Pixel,
    PixelMap,
};

const ALL_DEPTHS: [ColorDepth; 7] = [
    ColorDepth::Bit24,
    ColorDepth::Bit21,
    ColorDepth::Bit18,
    ColorDepth::Bit15,
    ColorDepth::Bit12,
    ColorDepth::Bit9,
    ColorDepth::Bit6,
];

const SMALL_DEPTHS: [ColorDepth; 4] = [
    ColorDepth::Bit15,
    ColorDepth::Bit12,
    ColorDepth::Bit9,
    ColorDepth::Bit6,
];

fn key(p: &Pixel) -> (u8, u8, u8, u8) {
    (p.r, p.g, p.b, p.a)
}

fn sorted_keys(pixels: &[Pixel]) -> Vec<(u8, u8, u8, u8)> {
    let mut keys: Vec<_> = pixels.iter().map(key).collect();
    keys.sort();
    keys
}

fn q(i: u32, steps: u32) -> u8 {
    (i * 255 / steps) as u8
}

#[test]
fn every_tier_fills_its_buffer() {
    for depth in ALL_DEPTHS {
        let d = ColorDepthData::new(depth);
        let n = d.steps() as u32 + 1;
        assert_eq!(n * n * n, d.width() as u32 * d.height() as u32);
        assert_eq!(d.max_colors(), d.width() as u32 * d.height() as u32);
    }
}

#[test]
fn tier_table_values() {
    let expected = [
        (ColorDepth::Bit24, 4096, 4096, 255),
        (ColorDepth::Bit21, 2048, 1024, 127),
        (ColorDepth::Bit18, 512, 512, 63),
        (ColorDepth::Bit15, 256, 128, 31),
        (ColorDepth::Bit12, 64, 64, 15),
        (ColorDepth::Bit9, 32, 16, 7),
        (ColorDepth::Bit6, 8, 8, 3),
    ];
    for (depth, w, h, s) in expected {
        let d = ColorDepthData::new(depth);
        assert_eq!((d.width(), d.height(), d.steps()), (w, h, s));
    }
    assert_eq!(ColorDepthData::new(ColorDepth::Bit24).max_colors(), 16_777_216);
    assert_eq!(ColorDepthData::new(ColorDepth::Bit6).max_colors(), 64);
}

#[test]
fn quantize_identity_at_full_depth() {
    for i in 0..=255u8 {
        assert_eq!(calculate_color_raw(i, 255), i);
    }
}

#[test]
fn quantize_two_bit_channel() {
    let got: Vec<u8> = (0..=3u8).map(|i| calculate_color_raw(i, 3)).collect();
    assert_eq!(got, vec![0, 85, 170, 255]);
}

#[test]
fn quantize_floors() {
    // 255 / 127 is just over 2, so index 1 shows as 2 and the top index as 255.
    assert_eq!(calculate_color_raw(1, 127), 2);
    assert_eq!(calculate_color_raw(64, 127), 128);
    assert_eq!(calculate_color_raw(127, 127), 255);
    assert_eq!(calculate_color_raw(3, 7), 109);
    let d = ColorDepthData::new(ColorDepth::Bit9);
    assert_eq!(calculate_color(3, &d), 109);
    assert_eq!(calculate_color(7, &d), 255);
}

#[test]
fn pixel_constructors() {
    assert_eq!(Pixel::new_raw(1, 2, 3), Pixel { r: 1, g: 2, b: 3, a: 255 });
    let d = ColorDepthData::new(ColorDepth::Bit6);
    assert_eq!(Pixel::new_indexed(0, 1, 3, &d), Pixel { r: 0, g: 85, b: 255, a: 255 });
    let d = ColorDepthData::new(ColorDepth::Bit24);
    assert_eq!(Pixel::new_indexed(7, 200, 255, &d), Pixel { r: 7, g: 200, b: 255, a: 255 });
}

#[test]
fn raster_order_small_tier() {
    let d = ColorDepthData::new(ColorDepth::Bit6);
    let pixels = default_pixels(&d);
    assert_eq!(pixels.len(), 64);
    assert_eq!(pixels[0], Pixel::new_raw(0, 0, 0));
    assert_eq!(pixels[1], Pixel::new_raw(0, 0, 85));
    assert_eq!(pixels[3], Pixel::new_raw(0, 0, 255));
    assert_eq!(pixels[5], Pixel::new_raw(0, 85, 85));
    assert_eq!(pixels[16], Pixel::new_raw(85, 0, 0));
    assert_eq!(pixels[63], Pixel::new_raw(255, 255, 255));
}

#[test]
fn raster_enumerates_every_triple_once() {
    for depth in SMALL_DEPTHS {
        let d = ColorDepthData::new(depth);
        let steps = d.steps() as u32;
        let n = steps + 1;
        let pixels = default_pixels(&d);
        assert_eq!(pixels.len() as u32, n * n * n);
        for (k, p) in pixels.iter().enumerate() {
            let k = k as u32;
            let (r, g, b) = (k / (n * n), (k / n) % n, k % n);
            assert_eq!(*p, Pixel::new_raw(q(r, steps), q(g, steps), q(b, steps)));
        }
        let keys = sorted_keys(&pixels);
        for w in keys.windows(2) {
            assert_ne!(w[0], w[1]);
        }
    }
}

#[test]
fn raster_full_depth() {
    let d = ColorDepthData::new(ColorDepth::Bit24);
    let pixels = default_pixels(&d);
    assert_eq!(pixels.len(), 16_777_216);
    assert_eq!(pixels[0], Pixel::new_raw(0, 0, 0));
    assert_eq!(pixels[256 * 256 + 256 + 1], Pixel::new_raw(1, 1, 1));
    assert_eq!(pixels[16_777_215], Pixel::new_raw(255, 255, 255));
}

#[test]
fn random_keeps_the_colors() {
    for depth in SMALL_DEPTHS {
        let d = ColorDepthData::new(depth);
        let raster = default_pixels(&d);
        let shuffled = random_pixels(&d);
        assert_eq!(shuffled.len(), raster.len());
        assert_eq!(sorted_keys(&shuffled), sorted_keys(&raster));
    }
}

#[test]
fn random_changes_the_order() {
    let d = ColorDepthData::new(ColorDepth::Bit12);
    let raster = default_pixels(&d);
    let shuffled = random_pixels(&d);
    assert_ne!(shuffled, raster);
}

#[test]
fn random_has_no_fixed_point_bias() {
    let d = ColorDepthData::new(ColorDepth::Bit6);
    let raster = default_pixels(&d);
    let runs = 200;
    let mut stays = vec![0u32; raster.len()];
    for _ in 0..runs {
        let shuffled = random_pixels(&d);
        for (k, p) in shuffled.iter().enumerate() {
            if *p == raster[k] {
                stays[k] += 1;
            }
        }
    }
    // A uniform shuffle keeps a given pixel in place with probability 1/64.
    let total: u32 = stays.iter().sum();
    assert!(total < 3 * runs, "too many fixed points: {}", total);
    assert!(stays.iter().all(|&s| s < runs / 4), "a position is biased: {:?}", stays);
}

#[test]
fn smooth_bands_of_two_on_six_bit() {
    let d = ColorDepthData::new(ColorDepth::Bit6);
    let pixels = smooth_pixels(&d);
    assert_eq!(pixels.len(), 64);
    let cycle = [0u32, 0, 1, 1, 2, 2, 3, 3];
    for (k, p) in pixels.iter().enumerate() {
        let kk = k as u32;
        let expected =
            Pixel::new_raw(q(kk / 16, 3), q((kk / 4) % 4, 3), q(cycle[k % 8], 3));
        assert_eq!(*p, expected, "pixel {}", k);
    }
    let blues: Vec<u8> = pixels[..8].iter().map(|p| p.b).collect();
    assert_eq!(blues, vec![0, 0, 85, 85, 170, 170, 255, 255]);
}

#[test]
fn smooth_bands_of_four_on_nine_bit() {
    let d = ColorDepthData::new(ColorDepth::Bit9);
    let pixels = smooth_pixels(&d);
    assert_eq!(pixels.len(), 512);
    for (k, p) in pixels.iter().enumerate() {
        let kk = k as u32;
        let expected = Pixel::new_raw(q(kk / 64, 7), q((kk / 8) % 8, 7), q((kk / 4) % 8, 7));
        assert_eq!(*p, expected, "pixel {}", k);
    }
}

#[test]
fn raster_is_deterministic() {
    for depth in SMALL_DEPTHS {
        let a = PixelMap::new(GenerationMethod::Raster, depth);
        let b = PixelMap::new(GenerationMethod::Raster, depth);
        assert_eq!(a.pixels(), b.pixels());
    }
}

#[test]
fn every_pixel_is_opaque() {
    for depth in SMALL_DEPTHS {
        for method in [GenerationMethod::Raster, GenerationMethod::Random, GenerationMethod::SmoothPixels] {
            let map = PixelMap::new(method, depth);
            assert!(map.pixels().iter().all(|p| p.a == 255));
        }
    }
}

#[test]
fn generate_dispatches_on_method() {
    let d = ColorDepthData::new(ColorDepth::Bit9);
    assert_eq!(generate_pixels(GenerationMethod::Raster, &d), default_pixels(&d));
    assert_eq!(generate_pixels(GenerationMethod::SmoothPixels, &d), smooth_pixels(&d));
    let random = generate_pixels(GenerationMethod::Random, &d);
    assert_eq!(sorted_keys(&random), sorted_keys(&default_pixels(&d)));
}

#[test]
fn pixel_map_geometry() {
    for depth in ALL_DEPTHS {
        if depth == ColorDepth::Bit24 {
            continue;
        }
        let map = PixelMap::new(GenerationMethod::SmoothPixels, depth);
        let d = ColorDepthData::new(depth);
        assert_eq!(map.width(), d.width());
        assert_eq!(map.height(), d.height());
        assert_eq!(map.pixels().len() as u32, d.max_colors());
    }
    let map = PixelMap::new(GenerationMethod::Raster, ColorDepth::Bit6);
    assert_eq!((map.width(), map.height()), (8, 8));
    assert_eq!(map.pixels()[9], Pixel::new_raw(0, 170, 85));
}
