use tilesets::points::parse_points;

fn render(points: &[(i32, i32)]) -> String {
    let items: Vec<String> = points.iter().map(|p| format!("{},{}", p.0, p.1)).collect();
    items.join(" ")
}

#[test]
fn point_lists_keep_their_order() {
    assert_eq!(parse_points("1,2 3,4"), Some(vec![(1, 2), (3, 4)]));
    assert_eq!(parse_points("3,4 1,2"), Some(vec![(3, 4), (1, 2)]));
    assert_eq!(parse_points("0,0"), Some(vec![(0, 0)]));
    assert_eq!(parse_points("-1,-2 +3,4"), Some(vec![(-1, -2), (3, 4)]));
}

#[test]
fn point_lists_round_their_coordinates() {
    assert_eq!(parse_points("1.5,2.4 -0.5,0.49"), Some(vec![(2, 2), (-1, 0)]));
    assert_eq!(parse_points("0.5,1.5 2.5,3.5"), Some(vec![(1, 2), (3, 4)]));
    assert_eq!(parse_points("0.49999999999999999,0.0"), Some(vec![(1, 0)]));
    assert_eq!(parse_points("0.49999999999999994,-0.49999999999999999"), Some(vec![(0, -1)]));
    assert_eq!(parse_points("1e1,2.5e-1"), Some(vec![(10, 0)]));
}

#[test]
fn the_empty_text_holds_no_points() {
    assert_eq!(parse_points(""), Some(vec![]));
}

#[test]
fn malformed_point_lists_fail_closed() {
    assert_eq!(parse_points("1,2 3"), None);
    assert_eq!(parse_points("a,b"), None);
    assert_eq!(parse_points("1,2 a,b"), None);
    assert_eq!(parse_points("1,2 3,"), None);
    assert_eq!(parse_points(",2"), None);
    assert_eq!(parse_points("1;2"), None);
    assert_eq!(parse_points("1,2,3"), None);
    assert_eq!(parse_points("1 ,2"), None);
    assert_eq!(parse_points("1, 2"), None);
    assert_eq!(parse_points("1,2 , 3,4"), None);
    assert_eq!(parse_points("1,2 3,4 x"), None);
}

#[test]
fn any_white_space_separates_points() {
    let expected = Some(vec![(1, 2), (3, 4)]);
    assert_eq!(parse_points("1,2  3,4"), expected);
    assert_eq!(parse_points(" 1,2 3,4"), expected);
    assert_eq!(parse_points("1,2 3,4 "), expected);
    assert_eq!(parse_points("1,2\t3,4"), expected);
    assert_eq!(parse_points("1,2\n3,4\r\n"), expected);
    assert_eq!(parse_points("\u{a0}1,2\u{3000}3,4\u{2003}"), expected);
    assert_eq!(parse_points(" "), Some(vec![]));
    assert_eq!(parse_points(" \t\n"), Some(vec![]));
    assert_eq!(parse_points("1,2\u{200b}3,4"), None);
}

#[test]
fn white_space_is_what_the_machine_calls_so() {
    for code in 0..0x3100u32 {
        if let Some(c) = char::from_u32(code) {
            assert_eq!(tilesets::points::is_space_char(c), c.is_whitespace());
        }
    }
}

#[test]
fn points_round_as_the_machine_rounds() {
    let tokens = [
        "0", "1.5", "-1.5", "0.49999999999999999", "2.5000000000000001", "8388607.5", "1e3",
        "-0.5", "123.456", "2147483647.5", "-2147483648.5", "4.9999999999999999e-1",
    ];
    let mut list = String::new();
    let mut expected = Vec::new();
    for (k, x) in tokens.iter().enumerate() {
        let y = tokens[tokens.len() - 1 - k];
        if k > 0 {
            list.push(' ');
        }
        list.push_str(&format!("{},{}", x, y));
        expected.push((
            x.parse::<f64>().unwrap().round() as i32,
            y.parse::<f64>().unwrap().round() as i32,
        ));
    }
    assert_eq!(parse_points(&list), Some(expected));
}

#[test]
fn rendered_points_read_back() {
    let lists: Vec<Vec<(i32, i32)>> = vec![
        vec![],
        vec![(0, 0)],
        vec![(1, 2), (3, 4), (5, 6)],
        vec![(-1, 1), (10, -10), (-100, -1000)],
        vec![(i32::MAX, i32::MIN), (i32::MIN, i32::MAX)],
        vec![(16_777_217, -16_777_217), (2_147_483_646, 7)],
        vec![(9, 10), (99, 100), (999, 1000), (-9, -10)],
    ];
    for points in lists {
        assert_eq!(parse_points(&render(&points)), Some(points));
    }
}
