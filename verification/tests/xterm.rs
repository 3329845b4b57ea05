use hextermbiest::xterm::{Zone, C256};
use hextermbiest::XTerm;

#[test]
fn test_c256_rgb_cube() {
    // 255/51 = 5, 0/51 = 0: index 36*5 + 16 = 196.
    assert_eq!(C256::rgb(255, 0, 0), C256(Zone::Cube(196)));
    assert_eq!(C256::rgb(0, 95, 255), C256(Zone::Cube(27)));
}

#[test]
fn test_c256_rgb_equal_levels_stay_cube() {
    // The zone is derived from the index, so triples whose levels agree
    // still land in the cube zone.
    assert_eq!(C256::rgb(10, 20, 30), C256(Zone::Cube(16)));
    assert_eq!(C256::rgb(255, 255, 255), C256(Zone::Cube(231)));
}

#[test]
fn test_xterm_rgb_cube() {
    assert_eq!(XTerm::rgb(255, 0, 0), XTerm(196, Zone::Cube(196)));
    assert_eq!(XTerm::rgb(0, 95, 255), XTerm(27, Zone::Cube(27)));
}

#[test]
fn test_xterm_rgb_grey_triples_stay_cube() {
    // Grey triples get no special zone: the zone follows the index.
    assert_eq!(XTerm::rgb(255, 255, 255), XTerm(231, Zone::Cube(231)));
    assert_eq!(XTerm::rgb(0, 0, 0), XTerm(16, Zone::Cube(16)));
    assert_eq!(XTerm::rgb(10, 20, 30), XTerm(16, Zone::Cube(16)));
}

#[test]
fn test_xterm_rgb_zone_matches_index() {
    for (r, g, b) in [(0, 0, 0), (12, 34, 56), (255, 215, 95), (255, 255, 255)] {
        let x = XTerm::rgb(r, g, b);
        assert_eq!(x.1, Zone::Cube(x.0));
    }
}

#[test]
fn test_xterm_from_hex() {
    let hex = "#005fff".parse::<hextermbiest::Hex>().unwrap();
    assert_eq!(XTerm::from_hex(&hex), XTerm(27, Zone::Cube(27)));

    let grey = "#ffffff".parse::<hextermbiest::Hex>().unwrap();
    assert_eq!(XTerm::from_hex(&grey), XTerm(231, Zone::Cube(231)));
}
