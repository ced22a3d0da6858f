use contrast::{contrast, luminance, Color, CONTRAST_ONE, LUMINANCE_ONE};

const WHITE: Color = Color { r: 255, g: 255, b: 255 };
const BLACK: Color = Color { r: 0, g: 0, b: 0 };
const RED: Color = Color { r: 255, g: 0, b: 0 };
const GREEN: Color = Color { r: 0, g: 255, b: 0 };
const BLUE: Color = Color { r: 0, g: 0, b: 255 };
const YELLOW: Color = Color { r: 255, g: 255, b: 0 };
const GRAY: Color = Color { r: 128, g: 128, b: 128 };

#[test]
fn test_contrast() {
    assert_eq!(luminance(WHITE), 10_000_000_000);
    assert_eq!(luminance(BLACK), 0);

    assert_eq!(contrast(WHITE, WHITE), 1_000_000);
    assert_eq!(contrast(WHITE, BLACK), 21_000_000);
    assert_eq!(contrast(BLACK, WHITE), 21_000_000);

    assert_eq!(contrast(WHITE, RED), 3_998_476);
    assert_eq!(contrast(WHITE, GREEN), 1_372_190);
    assert_eq!(contrast(WHITE, BLUE), 8_592_471);
    assert_eq!(contrast(WHITE, YELLOW), 1_073_839);
    assert_eq!(contrast(BLACK, YELLOW), 19_556_000);
}

#[test]
fn test_luminance_primaries_exact() {
    assert_eq!(luminance(RED), 2_126_000_000);
    assert_eq!(luminance(GREEN), 7_152_000_000);
    assert_eq!(luminance(BLUE), 722_000_000);
    assert_eq!(luminance(YELLOW), 9_278_000_000);
}

#[test]
fn test_luminance_gamma_path() {
    assert_eq!(luminance(GRAY), 2_158_560_000);
    let a = Color { r: 12, g: 34, b: 56 };
    let b = Color { r: 200, g: 100, b: 50 };
    assert_eq!(luminance(a), 150_749_296);
    assert_eq!(luminance(b), 2_162_181_922);
}

#[test]
fn test_luminance_bounds() {
    let samples: Vec<Color> = vec![
        WHITE,
        BLACK,
        RED,
        GREEN,
        BLUE,
        YELLOW,
        GRAY,
        Color { r: 1, g: 10, b: 11 },
        Color { r: 254, g: 127, b: 3 },
    ];
    for c in samples {
        assert!(luminance(c) <= LUMINANCE_ONE);
    }
}

#[test]
fn test_contrast_symmetric() {
    let pairs: Vec<(Color, Color)> = vec![
        (WHITE, BLACK),
        (RED, GREEN),
        (GRAY, YELLOW),
        (Color { r: 12, g: 34, b: 56 }, Color { r: 200, g: 100, b: 50 }),
    ];
    for (a, b) in pairs {
        assert_eq!(contrast(a, b), contrast(b, a));
    }
}

#[test]
fn test_contrast_self() {
    for c in [WHITE, BLACK, GRAY, Color { r: 7, g: 200, b: 45 }] {
        assert_eq!(contrast(c, c), CONTRAST_ONE);
    }
}

#[test]
fn test_contrast_bounds() {
    let pairs: Vec<(Color, Color)> = vec![
        (WHITE, BLACK),
        (RED, GREEN),
        (BLUE, YELLOW),
        (GRAY, Color { r: 129, g: 128, b: 127 }),
    ];
    for (a, b) in pairs {
        let r: u64 = contrast(a, b);
        assert!(r >= CONTRAST_ONE);
        assert!(r <= 21 * CONTRAST_ONE);
    }
}

#[test]
fn test_contrast_monotone() {
    // luminance(BLACK) < luminance(GRAY) < luminance(WHITE)
    assert!(luminance(BLACK) < luminance(GRAY));
    assert!(luminance(GRAY) < luminance(WHITE));
    assert!(contrast(BLACK, WHITE) >= contrast(BLACK, GRAY));
    assert!(contrast(BLACK, WHITE) >= contrast(GRAY, WHITE));

    let a = Color { r: 12, g: 34, b: 56 };
    let b = Color { r: 200, g: 100, b: 50 };
    assert!(luminance(a) < luminance(b));
    assert!(luminance(b) < luminance(WHITE));
    assert!(contrast(a, WHITE) >= contrast(a, b));
    assert!(contrast(a, WHITE) >= contrast(b, WHITE));
}

#[test]
fn test_contrast_gamma_pairs_exact() {
    assert_eq!(contrast(WHITE, GRAY), 3_949_506);
    assert_eq!(contrast(BLACK, GRAY), 5_317_120);
    let a = Color { r: 12, g: 34, b: 56 };
    let b = Color { r: 200, g: 100, b: 50 };
    assert_eq!(contrast(a, b), 4_090_948);
}
