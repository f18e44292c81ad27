use trombinoscope::cache::{cache_file_name, TransformCache};
use trombinoscope::crop::CropRectangle;
use trombinoscope::layout::{render_layout, LayoutError, RenderConfig, SourceImage};

fn sample_jpeg(w: u32, h: u32) -> Vec<u8> {
    let img = image::DynamicImage::ImageRgb8(image::RgbImage::new(w, h));
    let mut v: Vec<u8> = Vec::new();
    img.write_to(&mut std::io::Cursor::new(&mut v), image::ImageFormat::Jpeg)
        .unwrap();
    v
}

fn sample_png(w: u32, h: u32) -> Vec<u8> {
    let img = image::DynamicImage::ImageRgb8(image::RgbImage::new(w, h));
    let mut v: Vec<u8> = Vec::new();
    img.write_to(&mut std::io::Cursor::new(&mut v), image::ImageFormat::Png)
        .unwrap();
    v
}

fn base_config() -> RenderConfig {
    RenderConfig {
        page_hmargin: 1000,
        page_vmargin: 1000,
        inner_hmargin: 500,
        inner_vmargin: 500,
        max_dpi: None,
        placeholder: sample_jpeg(4, 4),
        placeholder_width: 4,
        placeholder_height: 4,
    }
}

#[test]
fn asking_twice_computes_once_and_returns_identical_bytes() {
    let mut cache = TransformCache::new();
    let data = sample_jpeg(8, 6);
    let crop = CropRectangle {
        x: 1,
        y: 0,
        width: 6,
        height: 6,
    };
    let key = cache_file_name(&String::from("pic.png"), &crop, None);

    let first = cache.get_or_compute(&key, &data, &crop, &None).unwrap();
    let second = cache.get_or_compute(&key, &data, &crop, &None).unwrap();

    assert_eq!(first, second);
    assert_eq!(cache.computed(), 1);
    // The transform really ran: the bytes differ from the source and decode
    // to the cropped size.
    assert_ne!(first, data);
    let out = image::load_from_memory(&first).unwrap();
    assert_eq!((out.width(), out.height()), (6, 6));
}

#[test]
fn seeded_bytes_are_returned_verbatim_without_computing() {
    let mut cache = TransformCache::new();
    let data = sample_jpeg(8, 6);
    let crop = CropRectangle {
        x: 0,
        y: 0,
        width: 8,
        height: 6,
    };
    let key = cache_file_name(&String::from("pic.png"), &crop, Some(300));

    cache.seed(key.clone(), vec![1, 2, 3]);
    let got = cache.get_or_compute(&key, &data, &crop, &None).unwrap();

    // A hit never re-validates: the stale seeded bytes come back as stored.
    assert_eq!(got, vec![1, 2, 3]);
    assert_eq!(cache.computed(), 0);
    assert_eq!(cache.len(), 1);
    let (k, b) = cache.entry_at(0);
    assert_eq!(k, &key);
    assert_eq!(b, &vec![1, 2, 3]);
}

#[test]
fn four_images_over_two_columns_fill_a_two_by_two_grid() {
    let images: Vec<SourceImage> = (0..4)
        .map(|i| SourceImage {
            identity: format!("p{i}.jpg"),
            bytes: sample_jpeg(8, 6),
        })
        .collect();
    let cfg = base_config();
    let mut cache = TransformCache::new();

    let ps = render_layout(&images, 2, 100_000, 80_000, &cfg, &mut cache).unwrap();

    assert_eq!(ps.len(), 4);
    // Row-major order: image 0 -> (0,0), image 3 -> (1,1).
    let expected = [(0u32, 0u32), (0, 1), (1, 0), (1, 1)];
    // Cell extents: (100000 - 2*1000 - 500) / 2 and (80000 - 2*1000 - 500) / 2.
    let lefts = [1000u64, 50_250];
    let bottoms = [40_250u64, 1000];
    for (i, p) in ps.iter().enumerate() {
        assert_eq!((p.row, p.column), expected[i]);
        assert_eq!(p.cell_left, lefts[p.column as usize]);
        assert_eq!(p.cell_bottom, bottoms[p.row as usize]);
        assert_eq!(p.render_width, 48_750);
        assert_eq!(p.render_height, 38_750);
        assert_eq!(p.identity, format!("p{i}.jpg"));
        assert_eq!(p.caption, format!("p{i}.jpg"));
        assert!(!p.used_placeholder);
    }
}

#[test]
fn one_corrupt_image_among_five_gets_the_placeholder() {
    let mut images: Vec<SourceImage> = (0..5)
        .map(|i| SourceImage {
            identity: format!("p{i}.jpg"),
            bytes: sample_jpeg(8, 6),
        })
        .collect();
    images[2].bytes = vec![0xde, 0xad, 0xbe, 0xef];
    let cfg = base_config();
    let mut cache = TransformCache::new();

    let ps = render_layout(&images, 2, 100_000, 80_000, &cfg, &mut cache).unwrap();

    assert_eq!(ps.len(), 5);
    for (i, p) in ps.iter().enumerate() {
        assert_eq!(p.used_placeholder, i == 2);
        assert!(!p.bytes.is_empty());
    }
    // The placeholder was cropped for the cell: 4x4 in a cell of ratio
    // 25666/48750 keeps the width and trims the height to 2.
    let out = image::load_from_memory(&ps[2].bytes).unwrap();
    assert_eq!((out.width(), out.height()), (4, 2));
    // The four good images were cropped to 8x4 for the same ratio.
    let out = image::load_from_memory(&ps[0].bytes).unwrap();
    assert_eq!((out.width(), out.height()), (8, 4));
    // Placeholder substitutions are never cached.
    assert_eq!(cache.len(), 4);
}

#[test]
fn repeated_runs_reuse_the_cache() {
    let images: Vec<SourceImage> = (0..4)
        .map(|i| SourceImage {
            identity: format!("p{i}.jpg"),
            bytes: sample_jpeg(8, 6),
        })
        .collect();
    let cfg = base_config();
    let mut cache = TransformCache::new();

    let first = render_layout(&images, 2, 100_000, 80_000, &cfg, &mut cache).unwrap();
    assert_eq!(cache.computed(), 4);
    let second = render_layout(&images, 2, 100_000, 80_000, &cfg, &mut cache).unwrap();
    // The second run hit the cache for every image and placed the same bytes.
    assert_eq!(cache.computed(), 4);
    for (a, b) in first.iter().zip(second.iter()) {
        assert_eq!(a.bytes, b.bytes);
    }
}

#[test]
fn page_without_room_for_cells_is_rejected() {
    let images = vec![SourceImage {
        identity: String::from("p.jpg"),
        bytes: sample_jpeg(8, 6),
    }];
    let cfg = base_config();
    let mut cache = TransformCache::new();
    // Margins alone exceed the page.
    let r = render_layout(&images, 1, 1000, 1000, &cfg, &mut cache);
    assert_eq!(r.err(), Some(LayoutError::CellTooSmall));
}

#[test]
fn unencodable_transform_aborts_the_run() {
    // A 1x100 source in an extremely tall, narrow cell crops to width zero,
    // which decodes fine but will not encode.
    let images = vec![SourceImage {
        identity: String::from("strip.png"),
        bytes: sample_png(1, 100),
    }];
    let mut cfg = base_config();
    cfg.page_hmargin = 0;
    cfg.page_vmargin = 0;
    cfg.inner_hmargin = 0;
    cfg.inner_vmargin = 0;
    let mut cache = TransformCache::new();
    let r = render_layout(&images, 1, 15, 3100, &cfg, &mut cache);
    assert_eq!(r.err(), Some(LayoutError::EncodeFailed));
}

#[test]
fn corrupt_placeholder_cannot_stand_in() {
    let images = vec![SourceImage {
        identity: String::from("bad.jpg"),
        bytes: vec![1, 2, 3],
    }];
    let mut cfg = base_config();
    cfg.placeholder = vec![9, 9, 9];
    let mut cache = TransformCache::new();
    let r = render_layout(&images, 1, 100_000, 80_000, &cfg, &mut cache);
    assert_eq!(r.err(), Some(LayoutError::PlaceholderFailed));
}

#[test]
fn downscale_applies_inside_the_pipeline() {
    // One 400x300 image in one cell; cap the resolution hard so the
    // pipeline must resample.
    let images = vec![SourceImage {
        identity: String::from("big.jpg"),
        bytes: sample_jpeg(400, 300),
    }];
    let mut cfg = base_config();
    cfg.max_dpi = Some(2);
    let mut cache = TransformCache::new();
    let ps = render_layout(&images, 1, 100_000, 80_000, &cfg, &mut cache).unwrap();
    let out = image::load_from_memory(&ps[0].bytes).unwrap();
    // Whatever the exact planned size, the result must be strictly smaller
    // than the crop would be at native resolution.
    assert!(out.width() < 400);
}
