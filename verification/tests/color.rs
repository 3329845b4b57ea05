use hextermbiest::color::{codex, grayscale, Rgb, XTerm};
use hextermbiest::Error;

#[test]
fn test_packed_round_trip() {
    for v in [0u32, 0x000001, 0x005fff, 0x123456, 0xabcdef, 0xffd75f, 0xffffff] {
        assert_eq!(Rgb::from_packed(v).to_packed(), v);
    }
}

#[test]
fn test_from_packed_channels() {
    assert_eq!(Rgb::from_packed(0x005fff), Rgb(0x00, 0x5f, 0xff));
    assert_eq!(Rgb::from_packed(0xffd75f), Rgb(0xff, 0xd7, 0x5f));
    assert_eq!(Rgb::from_packed(0x000000), Rgb(0, 0, 0));
    assert_eq!(Rgb::from_packed(0xffffff), Rgb(255, 255, 255));
}

#[test]
fn test_accessors() {
    let c = Rgb(1, 2, 3);
    assert_eq!(c.red(), 1);
    assert_eq!(c.green(), 2);
    assert_eq!(c.blue(), 3);
    assert_eq!(c.triple(), (1, 2, 3));
    assert!(!c.is_grey());
    assert!(Rgb(7, 7, 7).is_grey());
}

#[test]
fn test_from_hex_concrete() {
    assert_eq!(Rgb::from_hex("#005fff").unwrap(), Rgb(0, 95, 255));
    assert_eq!(Rgb::from_hex("#ff8787").unwrap(), Rgb(255, 135, 135));
    assert_eq!(Rgb::from_hex("ffd75f").unwrap(), Rgb(255, 215, 95));
    assert_eq!(Rgb::from_hex("#AbCdEf").unwrap(), Rgb(0xab, 0xcd, 0xef));
}

#[test]
fn test_from_hex_short_form_not_implemented() {
    assert_eq!(Rgb::from_hex("abc"), Err(Error::NotImplemented));
    assert_eq!(Rgb::from_hex("#fff"), Err(Error::NotImplemented));
}

#[test]
fn test_from_hex_rejects() {
    assert_eq!(Rgb::from_hex(""), Err(Error::Parse));
    assert_eq!(Rgb::from_hex("12345"), Err(Error::Parse));
    assert_eq!(Rgb::from_hex("#1234567"), Err(Error::Parse));
    assert_eq!(Rgb::from_hex("zzzzzz"), Err(Error::Parse));
    assert_eq!(Rgb::from_hex("#00000g"), Err(Error::Parse));
}

#[test]
fn test_to_hex_string() {
    assert_eq!(Rgb(0, 95, 255).to_hex_string(false), "005fff");
    assert_eq!(Rgb(0, 95, 255).to_hex_string(true), "005FFF");
    assert_eq!(Rgb(0, 0, 0).to_hex_string(false), "000000");
    assert_eq!(Rgb(255, 255, 255).to_hex_string(true), "FFFFFF");
}

#[test]
fn test_hex_string_round_trip() {
    for s in ["005fff", "ff8787", "abcdef", "000000", "ffffff"] {
        assert_eq!(Rgb::from_hex(s).unwrap().to_hex_string(false), s);
    }
    assert_eq!(Rgb::from_hex("#AbCdEf").unwrap().to_hex_string(false), "abcdef");
}

#[test]
fn test_to_xterm_cube() {
    // Not an exact round-trip target: 255/51 = 5, 215/51 = 4, 95/51 = 1.
    assert_eq!(Rgb(255, 215, 95).to_xterm(), XTerm::Cube(221));
    assert_eq!(Rgb(1, 2, 3).to_xterm(), XTerm::Cube(16));
}

#[test]
fn test_to_xterm_greyscale_exact_shade() {
    assert_eq!(Rgb(0x08, 0x08, 0x08).to_xterm(), XTerm::Greyscale(232));
    assert_eq!(Rgb(0xee, 0xee, 0xee).to_xterm(), XTerm::Greyscale(255));
}

#[test]
fn test_to_xterm_greyscale_takes_precedence_over_system() {
    // 0x808080 is both system color 8 and greyscale shade 12.
    assert_eq!(Rgb(0x80, 0x80, 0x80).to_xterm(), XTerm::Greyscale(244));
}

#[test]
fn test_to_xterm_system() {
    assert_eq!(Rgb(0, 0, 0).to_xterm(), XTerm::System(0));
    assert_eq!(Rgb(0xc0, 0xc0, 0xc0).to_xterm(), XTerm::System(7));
    assert_eq!(Rgb(255, 0, 0).to_xterm(), XTerm::System(9));
    assert_eq!(Rgb(255, 255, 255).to_xterm(), XTerm::System(15));
}

#[test]
fn test_to_rgb_system_table() {
    let expected = [
        0x000000u32, 0x800000, 0x008000, 0x808000, 0x000080, 0x800080, 0x008080, 0xc0c0c0,
        0x808080, 0xff0000, 0x00ff00, 0xffff00, 0x0000ff, 0xff00ff, 0x00ffff, 0xffffff,
    ];
    for (i, v) in expected.iter().enumerate() {
        assert_eq!(XTerm::System(i as u32).to_rgb(), Rgb::from_packed(*v));
    }
}

#[test]
fn test_to_rgb_greyscale_ramp() {
    for i in 232u32..=255 {
        let c = XTerm::Greyscale(i).to_rgb();
        let shade = 8 + 10 * (i - 232);
        assert_eq!(c, Rgb(shade, shade, shade));
    }
}

#[test]
fn test_to_rgb_cube_approximation() {
    // The raw multiples of 51 snap up to the canonical intensities.
    assert_eq!(XTerm::Cube(221).to_rgb(), Rgb(255, 215, 95));
    assert_eq!(XTerm::Cube(16).to_rgb(), Rgb(0, 0, 0));
    assert_eq!(XTerm::Cube(231).to_rgb(), Rgb(255, 255, 255));
}

#[test]
fn test_cube_vertex_round_trip() {
    let intensities = [0u32, 95, 135, 175, 215, 255];
    for &r in &intensities {
        for &g in &intensities {
            for &b in &intensities {
                let c = Rgb(r, g, b);
                assert_eq!(c.to_xterm().to_rgb(), c);
            }
        }
    }
}

#[test]
fn test_code_and_from_code() {
    assert_eq!(XTerm::from_code(5), XTerm::System(5));
    assert_eq!(XTerm::from_code(100), XTerm::Cube(100));
    assert_eq!(XTerm::from_code(240), XTerm::Greyscale(240));
    for i in 0u32..=255 {
        assert_eq!(XTerm::from_code(i).code(), i);
    }
}

#[test]
fn test_codex() {
    let all = codex();
    assert_eq!(all.len(), 256);
    assert_eq!(all[0], XTerm::System(0));
    assert_eq!(all[15], XTerm::System(15));
    assert_eq!(all[16], XTerm::Cube(16));
    assert_eq!(all[231], XTerm::Cube(231));
    assert_eq!(all[232], XTerm::Greyscale(232));
    assert_eq!(all[255], XTerm::Greyscale(255));
}

#[test]
fn test_grayscale() {
    let ramp = grayscale();
    assert_eq!(ramp.len(), 24);
    assert_eq!(ramp[0], 0x080808);
    assert_eq!(ramp[12], 0x808080);
    assert_eq!(ramp[23], 0xeeeeee);
    for (i, v) in ramp.iter().enumerate() {
        let shade = 8 + 10 * (i as u32);
        assert_eq!(*v, (shade << 16) | (shade << 8) | shade);
    }
}
