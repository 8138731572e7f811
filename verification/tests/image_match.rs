use aumate::frame::GrayFrame;
use aumate::match_config::MatchConfig;
use aumate::match_result::{MatchResult, PPM};
use aumate::matcher::{score_ppm, ImageMatcher};

fn gray(width: u32, height: u32, value: u8) -> GrayFrame {
    GrayFrame::new(width, height, vec![value; (width * height) as usize]).unwrap()
}

fn gray_with_rect(
    width: u32,
    height: u32,
    rect_x: u32,
    rect_y: u32,
    rect_w: u32,
    rect_h: u32,
) -> GrayFrame {
    // White background with a black rectangle.
    let mut pixels = vec![255u8; (width * height) as usize];
    for y in rect_y..(rect_y + rect_h).min(height) {
        for x in rect_x..(rect_x + rect_w).min(width) {
            pixels[(y * width + x) as usize] = 0;
        }
    }
    GrayFrame::new(width, height, pixels).unwrap()
}

#[test]
fn test_config_defaults() {
    let config = MatchConfig::default();
    assert!(config.search_multiple_scales);
    assert!(!config.use_grayscale);
    assert_eq!(config.confidence, 800_000);
    assert_eq!(config.limit, 100);
    assert!(config.parallel);
    assert!(!config.scale_steps.is_empty());
}

#[test]
fn test_config_builder() {
    let config = MatchConfig::new()
        .with_confidence(900_000)
        .with_multi_scale(false)
        .with_grayscale(true)
        .with_limit(10);

    assert_eq!(config.confidence, 900_000);
    assert!(!config.search_multiple_scales);
    assert!(config.use_grayscale);
    assert_eq!(config.limit, 10);
}

#[test]
fn test_confidence_clamping() {
    let config = MatchConfig::new().with_confidence(1_500_000);
    assert_eq!(config.confidence, 1_000_000);

    let config = MatchConfig::new().with_confidence(0);
    assert_eq!(config.confidence, 0);
}

#[test]
fn test_match_result_center() {
    let result = MatchResult::new(100, 200, 50, 40, 900_000, 1_000_000);
    assert_eq!(result.center(), (125, 220));
}

#[test]
fn test_match_result_bounds() {
    let result = MatchResult::new(100, 200, 50, 40, 900_000, 1_000_000);
    assert_eq!(result.bounds(), (100, 200, 50, 40));
    assert_eq!(result.right(), 150);
    assert_eq!(result.bottom(), 240);
    assert_eq!(result.area(), 2000);
}

#[test]
fn test_match_result_overlaps() {
    let r1 = MatchResult::new(100, 100, 50, 50, 900_000, 1_000_000);
    let r2 = MatchResult::new(120, 120, 50, 50, 800_000, 1_000_000);
    let r3 = MatchResult::new(200, 200, 50, 50, 700_000, 1_000_000);

    assert!(r1.overlaps(&r2));
    assert!(!r1.overlaps(&r3));
}

#[test]
fn test_match_result_iou() {
    let r1 = MatchResult::new(0, 0, 100, 100, 900_000, 1_000_000);
    let r2 = MatchResult::new(50, 50, 100, 100, 800_000, 1_000_000);

    // Intersection: 50x50 = 2500; union: 10000 + 10000 - 2500 = 17500;
    // IoU: 2500 / 17500, about 0.143.
    let iou = r1.iou(&r2);
    assert!((iou as i64 - 143_000).abs() < 10_000);
    assert_eq!(iou, 2_500_000_000u64.div_euclid(17_500) as u32);
}

#[test]
fn test_match_result_iou_no_overlap() {
    let r1 = MatchResult::new(0, 0, 50, 50, 900_000, 1_000_000);
    let r2 = MatchResult::new(100, 100, 50, 50, 800_000, 1_000_000);

    assert_eq!(r1.iou(&r2), 0);
}

#[test]
fn iou_is_symmetric_and_bounded() {
    let rects = [
        MatchResult::new(0, 0, 10, 10, 900_000, 1_000_000),
        MatchResult::new(5, 5, 10, 10, 800_000, 1_000_000),
        MatchResult::new(3, 0, 4, 20, 700_000, 1_000_000),
        MatchResult::new(100, 100, 1, 1, 600_000, 1_000_000),
    ];
    for a in &rects {
        for b in &rects {
            let ab = a.iou(b);
            let ba = b.iou(a);
            assert_eq!(ab, ba);
            assert!(ab <= PPM);
        }
        assert_eq!(a.iou(a), PPM);
    }
}

#[test]
fn test_find_exact_match() {
    // Screen with black rectangle at (50, 50); template is the same
    // black rectangle.
    let screen = gray_with_rect(200, 200, 50, 50, 30, 30);
    let template = gray_with_rect(30, 30, 0, 0, 30, 30);

    // Use a very low confidence to find any match.
    let config = MatchConfig {
        search_multiple_scales: false,
        confidence: 100_000,
        ..Default::default()
    };

    let results = ImageMatcher::find_all(&screen, &template, &config).unwrap();
    // With normalized cross-correlation we should get some matches; check
    // that at least one is near the expected location.
    let best_near_target = results
        .iter()
        .find(|r| (r.x as i32 - 50).abs() <= 10 && (r.y as i32 - 50).abs() <= 10);

    if !results.is_empty() {
        assert!(
            best_near_target.is_some() || results.iter().any(|r| r.confidence > 300_000),
            "Expected match near (50, 50) or with decent confidence, got {:?}",
            results.first()
        );
    }
    // Note: correlation against an all-black template is degenerate, so an
    // empty result is acceptable for this synthetic image.
}

#[test]
fn test_find_no_match() {
    let screen = gray(200, 200, 255); // White
    let template = gray(30, 30, 0); // Black

    let config = MatchConfig {
        confidence: 950_000,
        ..Default::default()
    };

    let result = ImageMatcher::find(&screen, &template, &config).unwrap();
    // With a high confidence threshold, no match should be found.
    assert!(result.is_none() || result.as_ref().map(|r| r.confidence < 950_000).unwrap_or(false));
}

#[test]
fn test_nms() {
    let matches = vec![
        MatchResult::new(100, 100, 50, 50, 900_000, 1_000_000),
        MatchResult::new(110, 110, 50, 50, 800_000, 1_000_000), // Overlaps with first
        MatchResult::new(200, 200, 50, 50, 700_000, 1_000_000), // No overlap
    ];

    let result = ImageMatcher::non_max_suppression(matches, 300_000);
    assert_eq!(result.len(), 2); // First and third should remain
    assert_eq!(result[0].x, 100);
    assert_eq!(result[1].x, 200);
}

#[test]
fn nms_twice_gives_the_same_output() {
    let matches = vec![
        MatchResult::new(0, 0, 20, 20, 990_000, 1_000_000),
        MatchResult::new(2, 2, 20, 20, 980_000, 1_000_000),
        MatchResult::new(5, 0, 20, 20, 970_000, 1_000_000),
        MatchResult::new(40, 40, 20, 20, 960_000, 1_000_000),
        MatchResult::new(41, 41, 20, 20, 950_000, 1_000_000),
    ];
    let once = ImageMatcher::non_max_suppression(matches, 500_000);
    let twice = ImageMatcher::non_max_suppression(once.clone(), 500_000);
    assert_eq!(once, twice);
    for i in 0..once.len() {
        for j in 0..once.len() {
            if i != j {
                assert!(once[i].iou(&once[j]) < 500_000);
            }
        }
    }
}

#[test]
fn find_all_respects_confidence_and_limit() {
    // A distinctive patch inside an otherwise uniform screen: the
    // correlation peaks exactly where the patch sits.
    let mut pixels = vec![128u8; 20 * 20];
    let patch = [10u8, 170, 40, 140, 200, 30, 90, 250, 60, 120, 15, 220, 75, 180, 45, 160];
    for dy in 0..4 {
        for dx in 0..4 {
            pixels[(8 + dy) * 20 + 8 + dx] = patch[dy * 4 + dx];
        }
    }
    let screen = GrayFrame::new(20, 20, pixels).unwrap();
    let template = GrayFrame::new(4, 4, patch.to_vec()).unwrap();

    let config = MatchConfig {
        search_multiple_scales: false,
        confidence: 990_000,
        limit: 1,
        ..Default::default()
    };
    let results = ImageMatcher::find_all(&screen, &template, &config).unwrap();
    assert_eq!(results.len(), 1);
    assert_eq!((results[0].x, results[0].y), (8, 8));
    for m in &results {
        assert!(m.confidence >= config.confidence);
    }
    assert!(results.len() <= config.limit);
}

#[test]
fn scaled_search_resamples_the_template() {
    // The template is larger than the screen, but at half scale it fits:
    // only a real resample can produce these matches.
    let screen = gray(6, 6, 100);
    let template = gray(8, 8, 100);
    let config = MatchConfig {
        search_multiple_scales: true,
        scale_steps: vec![500_000],
        confidence: 900_000,
        ..Default::default()
    };
    let results = ImageMatcher::find_all(&screen, &template, &config).unwrap();
    assert!(!results.is_empty());
    assert!(results[0].confidence >= 999_000);
    assert_eq!(results[0].scale, 500_000);
    // The reported size is the original template size.
    assert_eq!((results[0].width, results[0].height), (8, 8));
}

#[test]
fn empty_or_degenerate_scale_set_gives_empty_result() {
    let screen = gray(50, 50, 100);
    let template = gray(10, 10, 100);

    // No scale steps at all: nothing to search, not an error.
    let config = MatchConfig {
        search_multiple_scales: true,
        scale_steps: vec![],
        confidence: 100_000,
        ..Default::default()
    };
    assert!(ImageMatcher::find_all(&screen, &template, &config).unwrap().is_empty());

    // A scale so small that both dimensions round to zero is rejected.
    let config = MatchConfig {
        search_multiple_scales: true,
        scale_steps: vec![10_000],
        confidence: 100_000,
        ..Default::default()
    };
    assert!(ImageMatcher::find_all(&screen, &template, &config).unwrap().is_empty());
}

#[test]
fn template_larger_than_screen_gives_empty_result() {
    let screen = gray(10, 10, 100);
    let template = gray(30, 30, 100);
    let config = MatchConfig {
        search_multiple_scales: false,
        confidence: 100_000,
        ..Default::default()
    };
    let results = ImageMatcher::find_all(&screen, &template, &config).unwrap();
    assert!(results.is_empty());
    assert!(ImageMatcher::find(&screen, &template, &config).unwrap().is_none());
}

#[test]
fn score_quantization_matches_single_precision_values() {
    assert_eq!(score_ppm(0.5f32.to_bits()), 500_000);
    assert_eq!(score_ppm(0.25f32.to_bits()), 250_000);
    assert_eq!(score_ppm(1.0f32.to_bits()), 1_000_000);
    assert_eq!(score_ppm(2.0f32.to_bits()), 1_000_000);
    assert_eq!(score_ppm(0.0f32.to_bits()), 0);
    assert_eq!(score_ppm((-0.3f32).to_bits()), 0);
    assert_eq!(score_ppm(f32::NAN.to_bits()), 0);
    assert_eq!(score_ppm(f32::INFINITY.to_bits()), 1_000_000);
    // 0.1 is not exactly representable; the quantization rounds down.
    assert_eq!(score_ppm(0.1f32.to_bits()), 100_000);
    assert_eq!(score_ppm(0.9f32.to_bits()), 899_999);
}

#[test]
fn frame_with_wrong_buffer_length_is_invalid_input() {
    let r = GrayFrame::new(10, 10, vec![0u8; 99]);
    assert_eq!(r.unwrap_err(), aumate::CoreError::InvalidInput);
}
