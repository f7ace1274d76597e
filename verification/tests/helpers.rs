use dygma_focus::color::{RGB, RGBW};
use dygma_focus::error::ProtocolError;
use dygma_focus::helpers::{
    numerical_vec_to_string, rgb_vec_to_string, rgbw_vec_to_string, string_to_numerical_vec,
    string_to_rgb_vec, string_to_rgbw_vec,
};

#[test]
fn test_string_to_numerical_vec() {
    let input = "41 30 31 32 33 34 35 0 0";
    let expected = vec![41, 30, 31, 32, 33, 34, 35, 0, 0];
    let actual = string_to_numerical_vec::<u8>(input).unwrap();

    assert_eq!(expected, actual);
}

#[test]
fn test_numerical_vec_to_string() {
    let input: Vec<u8> = vec![41, 30, 31, 32, 33, 34, 35, 0, 0];
    let expected = "41 30 31 32 33 34 35 0 0";
    let actual = numerical_vec_to_string(&input);

    assert_eq!(expected, actual);
}

#[test]
fn test_string_to_rgb_vec() {
    let input = "\
    255 196 0 \
    0 0 254 \
    24 0 0 \
    0 0 255 \
    231 255 0 \
    0 0 254 \
    234 0 0 \
    52 255 0 \
    255 0 232 \
    0 0 77 \
    168 87 125 \
    0 235 19 \
    20 0 36 \
    219 85 0 \
    126 129 255 \
    9 0 0 \
    0 0 0 \
    0 255 172 \
    0 0 0 \
    0 0 0 \
    255 58 0";
    let expected = vec![
        RGB {
            r: 255,
            g: 196,
            b: 0,
        },
        RGB { r: 0, g: 0, b: 254 },
        RGB { r: 24, g: 0, b: 0 },
        RGB { r: 0, g: 0, b: 255 },
        RGB {
            r: 231,
            g: 255,
            b: 0,
        },
        RGB { r: 0, g: 0, b: 254 },
        RGB { r: 234, g: 0, b: 0 },
        RGB {
            r: 52,
            g: 255,
            b: 0,
        },
        RGB {
            r: 255,
            g: 0,
            b: 232,
        },
        RGB { r: 0, g: 0, b: 77 },
        RGB {
            r: 168,
            g: 87,
            b: 125,
        },
        RGB {
            r: 0,
            g: 235,
            b: 19,
        },
        RGB { r: 20, g: 0, b: 36 },
        RGB {
            r: 219,
            g: 85,
            b: 0,
        },
        RGB {
            r: 126,
            g: 129,
            b: 255,
        },
        RGB { r: 9, g: 0, b: 0 },
        RGB { r: 0, g: 0, b: 0 },
        RGB {
            r: 0,
            g: 255,
            b: 172,
        },
        RGB { r: 0, g: 0, b: 0 },
        RGB { r: 0, g: 0, b: 0 },
        RGB {
            r: 255,
            g: 58,
            b: 0,
        },
    ];

    let actual = string_to_rgb_vec(input).unwrap();

    assert_eq!(expected, actual);
}

#[test]
fn test_rgb_vec_to_string() {
    let input = vec![
        RGB {
            r: 41,
            g: 30,
            b: 31,
        },
        RGB {
            r: 32,
            g: 33,
            b: 34,
        },
        RGB {
            r: 35,
            g: 212,
            b: 10,
        },
    ];
    let expected = "41 30 31 32 33 34 35 212 10";

    let result = rgb_vec_to_string(&input);
    assert_eq!(expected, result);
}

#[test]
fn test_string_to_rgbw_vec() {
    let input = "\
    255 196 0 0 \
    0 254 24 0 \
    0 0 0 255 \
    231 255 0 0 \
    0 254 234 0 \
    0 52 255 0 \
    255 0 232 0 \
    0 77 168 87 \
    125 0 235 19 \
    20 0 36 219 \
    85 0 126 129 \
    255 9 0 0 \
    0 0 0 0 \
    255 172 0 0 \
    0 0 0 0 \
    255 58 0 0";
    let expected = vec![
        RGBW {
            r: 255,
            g: 196,
            b: 0,
            w: 0,
        },
        RGBW {
            r: 0,
            g: 254,
            b: 24,
            w: 0,
        },
        RGBW {
            r: 0,
            g: 0,
            b: 0,
            w: 255,
        },
        RGBW {
            r: 231,
            g: 255,
            b: 0,
            w: 0,
        },
        RGBW {
            r: 0,
            g: 254,
            b: 234,
            w: 0,
        },
        RGBW {
            r: 0,
            g: 52,
            b: 255,
            w: 0,
        },
        RGBW {
            r: 255,
            g: 0,
            b: 232,
            w: 0,
        },
        RGBW {
            r: 0,
            g: 77,
            b: 168,
            w: 87,
        },
        RGBW {
            r: 125,
            g: 0,
            b: 235,
            w: 19,
        },
        RGBW {
            r: 20,
            g: 0,
            b: 36,
            w: 219,
        },
        RGBW {
            r: 85,
            g: 0,
            b: 126,
            w: 129,
        },
        RGBW {
            r: 255,
            g: 9,
            b: 0,
            w: 0,
        },
        RGBW {
            r: 0,
            g: 0,
            b: 0,
            w: 0,
        },
        RGBW {
            r: 255,
            g: 172,
            b: 0,
            w: 0,
        },
        RGBW {
            r: 0,
            g: 0,
            b: 0,
            w: 0,
        },
        RGBW {
            r: 255,
            g: 58,
            b: 0,
            w: 0,
        },
    ];

    let actual = string_to_rgbw_vec(input).unwrap();

    assert_eq!(expected, actual);
}

#[test]
fn test_rgbw_vec_to_string() {
    let input = vec![
        RGBW {
            r: 41,
            g: 30,
            b: 31,
            w: 12,
        },
        RGBW {
            r: 32,
            g: 33,
            b: 34,
            w: 3,
        },
        RGBW {
            r: 35,
            g: 212,
            b: 10,
            w: 32,
        },
    ];
    let expected = "41 30 31 12 32 33 34 3 35 212 10 32";

    let result = rgbw_vec_to_string(&input);
    assert_eq!(expected, result);
}

#[test]
fn numerical_vec_round_trip() {
    let input: Vec<u16> = vec![0, 1, 9, 10, 99, 100, 255, 256, 4095, 65535];
    let text = numerical_vec_to_string(&input);
    assert_eq!(text, "0 1 9 10 99 100 255 256 4095 65535");
    assert_eq!(string_to_numerical_vec::<u16>(&text), Ok(input));
}

#[test]
fn numerical_vec_of_nothing_is_empty_text() {
    let input: Vec<u8> = vec![];
    assert_eq!(numerical_vec_to_string(&input), "");
    assert_eq!(string_to_numerical_vec::<u8>(""), Ok(vec![]));
    assert_eq!(string_to_numerical_vec::<u8>("  \t \r\n"), Ok(vec![]));
}

#[test]
fn numerical_vec_takes_any_whitespace_between_numbers() {
    assert_eq!(string_to_numerical_vec::<u8>("  1\t2\r\n3 \u{a0}4\u{2003}5 "), Ok(vec![1, 2, 3, 4, 5]));
}

#[test]
fn numerical_vec_takes_a_plus_sign_and_leading_zeros() {
    assert_eq!(string_to_numerical_vec::<u8>("+7 007 +000255"), Ok(vec![7, 7, 255]));
}

#[test]
fn numerical_vec_refuses_what_is_no_number() {
    assert_eq!(string_to_numerical_vec::<u8>("1 x 3"), Err(ProtocolError::BadResponse));
    assert_eq!(string_to_numerical_vec::<u8>("1 -2 3"), Err(ProtocolError::BadResponse));
    assert_eq!(string_to_numerical_vec::<u8>("+"), Err(ProtocolError::BadResponse));
    assert_eq!(string_to_numerical_vec::<u8>("1 2.5"), Err(ProtocolError::BadResponse));
    assert_eq!(string_to_numerical_vec::<u8>("1 ++2"), Err(ProtocolError::BadResponse));
}

#[test]
fn numerical_vec_refuses_numbers_out_of_range() {
    assert_eq!(string_to_numerical_vec::<u8>("255"), Ok(vec![255]));
    assert_eq!(string_to_numerical_vec::<u8>("256"), Err(ProtocolError::BadResponse));
    assert_eq!(string_to_numerical_vec::<u16>("65535"), Ok(vec![65535]));
    assert_eq!(string_to_numerical_vec::<u16>("65536"), Err(ProtocolError::BadResponse));
    assert_eq!(string_to_numerical_vec::<u32>("4294967295"), Ok(vec![4294967295]));
    assert_eq!(string_to_numerical_vec::<u32>("4294967296"), Err(ProtocolError::BadResponse));
    assert_eq!(
        string_to_numerical_vec::<u64>("18446744073709551615"),
        Ok(vec![18446744073709551615])
    );
    assert_eq!(
        string_to_numerical_vec::<u64>("18446744073709551616"),
        Err(ProtocolError::BadResponse)
    );
    assert_eq!(
        string_to_numerical_vec::<u64>("99999999999999999999999999"),
        Err(ProtocolError::BadResponse)
    );
}

#[test]
fn rgb_vec_of_nine_tokens() {
    let expected = vec![
        RGB { r: 255, g: 196, b: 0 },
        RGB { r: 0, g: 0, b: 254 },
        RGB { r: 24, g: 0, b: 0 },
    ];
    assert_eq!(string_to_rgb_vec("255 196 0 0 0 254 24 0 0"), Ok(expected));
}

#[test]
fn rgb_vec_refuses_a_count_that_is_no_multiple_of_three() {
    assert_eq!(string_to_rgb_vec("255 196 0 0"), Err(ProtocolError::MalformedVector));
    assert_eq!(string_to_rgb_vec("255 196"), Err(ProtocolError::MalformedVector));
    assert_eq!(string_to_rgb_vec("1"), Err(ProtocolError::MalformedVector));
    // the count is looked at before the tokens are read
    assert_eq!(string_to_rgb_vec("x 1 2 3"), Err(ProtocolError::MalformedVector));
}

#[test]
fn rgb_vec_refuses_what_is_no_component() {
    assert_eq!(string_to_rgb_vec("255 196 256"), Err(ProtocolError::BadResponse));
    assert_eq!(string_to_rgb_vec("a b c"), Err(ProtocolError::BadResponse));
    assert_eq!(string_to_rgb_vec(""), Ok(vec![]));
}

#[test]
fn rgbw_vec_refuses_a_count_that_is_no_multiple_of_four() {
    assert_eq!(string_to_rgbw_vec("255 196 0"), Err(ProtocolError::MalformedVector));
    assert_eq!(string_to_rgbw_vec("1 2 3 4 5"), Err(ProtocolError::MalformedVector));
    assert_eq!(string_to_rgbw_vec("1 2 3 400"), Err(ProtocolError::BadResponse));
    assert_eq!(
        string_to_rgbw_vec("1 2 3 4"),
        Ok(vec![RGBW { r: 1, g: 2, b: 3, w: 4 }])
    );
}

#[test]
fn colour_vec_round_trip() {
    let rgb = vec![RGB { r: 0, g: 10, b: 255 }, RGB { r: 7, g: 77, b: 177 }];
    let text = rgb_vec_to_string(&rgb);
    assert_eq!(text, "0 10 255 7 77 177");
    assert_eq!(string_to_rgb_vec(&text), Ok(rgb));
    let rgbw = vec![RGBW { r: 0, g: 10, b: 255, w: 1 }, RGBW { r: 7, g: 77, b: 177, w: 200 }];
    let text = rgbw_vec_to_string(&rgbw);
    assert_eq!(text, "0 10 255 1 7 77 177 200");
    assert_eq!(string_to_rgbw_vec(&text), Ok(rgbw));
}

#[test]
fn colour_from_str() {
    assert_eq!(RGB::from_str("1 2 3"), Ok(RGB { r: 1, g: 2, b: 3 }));
    assert_eq!(RGB::from_str(" 1  2\t3 "), Ok(RGB { r: 1, g: 2, b: 3 }));
    assert_eq!(RGB::from_str("1 2"), Err(ProtocolError::MalformedVector));
    assert_eq!(RGB::from_str("1 2 3 4"), Err(ProtocolError::MalformedVector));
    assert_eq!(RGB::from_str("1 2 z"), Err(ProtocolError::BadResponse));
    assert_eq!(RGB::from_str("1 2 3 z"), Err(ProtocolError::BadResponse));
    assert_eq!(RGBW::from_str("1 2 3 4"), Ok(RGBW { r: 1, g: 2, b: 3, w: 4 }));
    assert_eq!(RGBW::from_str("1 2 3"), Err(ProtocolError::MalformedVector));
    assert_eq!(RGBW::from_str("1 2 3 256"), Err(ProtocolError::BadResponse));
}
