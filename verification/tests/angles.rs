use dslcad::angles::{split_angles, AngleText, EMPTY_ANGLE_MESSAGE};

fn axes(input: &str) -> Vec<(char, String)> {
    match split_angles(input).unwrap().text {
        AngleText::Axes(tokens) => tokens.into_iter().map(|t| (t.axis, t.value)).collect(),
        AngleText::Bare(v) => panic!("unexpected bare angle {v}"),
    }
}

fn pairs(list: &[(char, &str)]) -> Vec<(char, String)> {
    list.iter().map(|(a, v)| (*a, v.to_string())).collect()
}

#[test]
fn axis_letters_split_the_option() {
    assert_eq!(pairs(&[('x', "90"), ('y', "45")]), axes("x90y45"));
    assert_eq!(pairs(&[('y', "45"), ('x', "90")]), axes("y45X90"));
    assert_eq!(pairs(&[('x', "-90"), ('y', "45.5"), ('z', "10")]), axes("x-90y45.5z10"));
    assert_eq!(pairs(&[('a', "90")]), axes("a90"));
    assert_eq!(pairs(&[('x', "")]), axes("x"));
    assert_eq!(pairs(&[('x', "90"), ('f', ""), ('o', ""), ('o', "")]), axes("x90foo"));
}

#[test]
fn a_leading_number_is_a_bare_angle() {
    let spec = split_angles("  -45 ").unwrap();
    assert_eq!("-45", spec.input);
    assert!(matches!(spec.text, AngleText::Bare(v) if v == "-45"));
    assert!(matches!(split_angles("90y45").unwrap().text, AngleText::Bare(v) if v == "90y45"));
}

#[test]
fn an_empty_option_is_refused() {
    assert_eq!(Err(EMPTY_ANGLE_MESSAGE.to_string()), split_angles("").map(|s| s.input));
    assert_eq!(Err(EMPTY_ANGLE_MESSAGE.to_string()), split_angles(" \t\n").map(|s| s.input));
}

#[test]
fn axis_tokens_join_back_to_the_option() {
    for input in ["x-90y45.5z10", " Y45x90 ", "x", "q1w2e3", "x90foo"] {
        let spec = split_angles(input).unwrap();
        let joined: String = axes(input)
            .into_iter()
            .map(|(axis, value)| format!("{axis}{value}"))
            .collect();
        assert_eq!(spec.input, joined);
    }
}
