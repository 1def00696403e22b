use memenhancer::calc_dimension;
use memenhancer::classify::is_face;
use memenhancer::classify::is_face_evidence;
use memenhancer::classify::is_expression_char;
use memenhancer::escape_char;
use memenhancer::escape_str;
use memenhancer::get_meme_svg;
use memenhancer::get_styles;
use memenhancer::is_alphanumeric_space_operator;
use memenhancer::is_expression;
use memenhancer::is_meme;
use memenhancer::is_operator;
use memenhancer::layout::to_svg_text;
use memenhancer::lines::split_lines;
use memenhancer::scanner::Scanner;
use memenhancer::parse_memes;
use memenhancer::regroup_rest_text;
use memenhancer::to_svg;
use memenhancer::to_svg_lines;
use memenhancer::width::columns_of;
use memenhancer::Anchor;
use memenhancer::Body;
use memenhancer::Head;
use memenhancer::Primitive;
use unicode_width::UnicodeWidthStr;

fn unified_width(line: &str) -> usize {
    parse_memes(line).unify_rest_text().width()
}

#[test]
fn width_is_kept_where_the_line_ends_in_text() {
    for line in [
        "",
        " ",
        "plain text only",
        "trailing spaces   ",
        "   leading spaces",
        "a (^_^) b",
        "ヘ( ^_^)ノ ＼(^_^ )Gimme Five",
        "Equations are not rendered? ( -_- )  __(x+y)__  (^_^) (x^2+y^2)x",
        "( -_- ) __(x+y)__ (^_^) (x^2+y^2)",
        "(╯°□°] ╯︵ ┬─┻",
        "ab(x + y) cd",
        "stray ) paren",
        "(^_^) ",
        "tab\there",
    ] {
        assert_eq!(line.width(), unified_width(line), "line {:?}", line);
    }
}

#[test]
fn width_is_not_kept_where_the_line_ends_in_a_meme() {
    let line = "( ^_^)ノ";
    assert_eq!(8, line.width());
    assert_eq!(0, unified_width(line));
    let line = "text (^_^)";
    assert_eq!(10, line.width());
    assert_eq!(4, unified_width(line));
    assert_eq!("text", parse_memes(line).unify_rest_text());
}

#[test]
fn radius_and_centre_of_a_head() {
    let head = Head {
        start_position: 1,
        startx: 1,
        face: String::from("^_^"),
        endx: 5,
        end_position: 5,
    };
    let text_width: f32 = 8.0;
    let text_height: f32 = 16.0;
    let circle = head.calc_circle(0);
    assert_eq!(4, circle.r);
    assert_eq!(6, circle.cx);
    assert_eq!(2, circle.cy);
    assert_eq!(2.0 * text_width, circle.r as f32 / 2.0 * text_width);
    assert_eq!(3.0 * text_width, circle.cx as f32 / 2.0 * text_width);
    assert_eq!(text_height / 2.0, circle.cy as f32 / 4.0 * text_height);
    let lower = head.calc_circle(3);
    assert_eq!(14, lower.cy);
    assert_eq!(4, head.distance());
}

#[test]
fn face_text_stands_in_the_middle_of_the_circle() {
    let head = Head {
        start_position: 0,
        startx: 0,
        face: String::from("<_<"),
        endx: 4,
        end_position: 4,
    };
    let text = head.get_face_text(2);
    assert_eq!(4, text.x);
    assert_eq!(11, text.y);
    assert_eq!(Anchor::Middle, text.anchor);
    assert_eq!(
        "<tspan class='head'>(</tspan>&lt;_&lt;<tspan class='head'>)</tspan>",
        text.content
    );
    let elements = head.get_svg_elements(2);
    assert_eq!(2, elements.len());
    assert!(matches!(elements[0], Primitive::Circle(c) if c.cx == 4 && c.cy == 10 && c.r == 4));
    assert!(matches!(&elements[1], Primitive::Text(t) if t.x == 4 && t.y == 11));
}

#[test]
fn a_meme_is_drawn_as_left_side_circle_face_and_right_side() {
    let body = parse_memes("ab<(^_^)>cd");
    assert_eq!(1, body.memes.len());
    let elements = body.memes[0].get_svg_elements(1);
    assert_eq!(4, elements.len());
    match &elements[0] {
        Primitive::Text(t) => {
            assert_eq!(6, t.x);
            assert_eq!(7, t.y);
            assert_eq!(Anchor::End, t.anchor);
            assert_eq!("ab&lt;", t.content);
        }
        Primitive::Circle(_) => panic!("the left side comes first"),
    }
    match &elements[1] {
        Primitive::Circle(c) => {
            assert_eq!(3 + 7, c.cx);
            assert_eq!(6, c.cy);
            assert_eq!(4, c.r);
        }
        Primitive::Text(_) => panic!("the circle comes second"),
    }
    match &elements[2] {
        Primitive::Text(t) => {
            assert_eq!(10, t.x);
            assert_eq!(Anchor::Middle, t.anchor);
            assert_eq!(
                "<tspan class='head'>(</tspan>^_^<tspan class='head'>)</tspan>",
                t.content
            );
        }
        Primitive::Circle(_) => panic!("the face comes third"),
    }
    match &elements[3] {
        Primitive::Text(t) => {
            assert_eq!(14, t.x);
            assert_eq!(7, t.y);
            assert_eq!(Anchor::Start, t.anchor);
            assert_eq!("&gt;cd", t.content);
        }
        Primitive::Circle(_) => panic!("the right side comes last"),
    }
    assert_eq!(4, body.get_svg_elements(1).len());
}

#[test]
fn side_text_is_escaped_and_put_on_the_baseline() {
    let text = to_svg_text("a&b", 5, 2, Anchor::Start);
    assert_eq!(10, text.x);
    assert_eq!(11, text.y);
    assert_eq!("a&amp;b", text.content);
}

#[test]
fn joining_twice_changes_nothing() {
    let rest = vec![
        (0, String::from("The")),
        (3, String::from(" rest")),
        (10, String::from("of")),
        (12, String::from(" it")),
        (20, String::from("凸")),
        (22, String::from("!")),
        (22, String::from("again")),
    ];
    let once = regroup_rest_text(&rest);
    assert_eq!(
        vec![
            (0, String::from("The rest")),
            (10, String::from("of it")),
            (20, String::from("凸!")),
            (22, String::from("again")),
        ],
        once
    );
    let twice = regroup_rest_text(&once);
    assert_eq!(once, twice);
    assert_eq!(Vec::<(usize, String)>::new(), regroup_rest_text(&Vec::new()));
}

#[test]
fn joining_twice_changes_nothing_after_an_analysis() {
    let body = parse_memes("Equations are not rendered? ( -_- )  __(x+y)__  (^_^) (x^2+y^2)x");
    assert_eq!(body.rest_str, regroup_rest_text(&body.rest_str));
}

#[test]
fn leftover_text_is_laid_out_at_its_columns() {
    let body = Body {
        memes: Vec::new(),
        rest_str: vec![(2, String::from("ab")), (7, String::from("凸")), (9, String::from("c"))],
    };
    assert_eq!("  ab   凸c", body.unify_rest_text());
    assert!(!body.has_memes());
    let crowded = Body {
        memes: Vec::new(),
        rest_str: vec![(0, String::from("abcd")), (2, String::from("ef"))],
    };
    assert_eq!("abcdef", crowded.unify_rest_text());
}

#[test]
fn leftover_text_of_a_line_with_three_memes() {
    let line = r#"The rest of   凸(•̀_•́)凸❤️ ( ͡° ͜ʖ ͡°) \(°□°)/层∀  the text is here"#;
    let body = parse_memes(line);
    assert_eq!(3, body.memes.len());
    assert_eq!(
        vec![
            (0, String::from("The rest of  ")),
            (44, String::from("  the text is here")),
        ],
        body.rest_str
    );
    assert_eq!(62, line.width());
    assert_eq!(62, body.unify_rest_text().width());
}

#[test]
fn memes_hold_their_sides_and_positions() {
    let body = parse_memes("ヘ( ^_^)ノ ＼(^_^ )Gimme Five");
    assert_eq!(2, body.memes.len());
    let first = &body.memes[0];
    assert_eq!("ヘ", first.left_side);
    assert_eq!("ノ", first.right_side);
    assert_eq!(" ^_^", first.head.face);
    assert_eq!(0, first.start_position);
    assert_eq!(1, first.head.start_position);
    assert_eq!(6, first.head.end_position);
    assert_eq!(7, first.end_position);
    assert_eq!(2, first.head.startx);
    assert_eq!(7, first.head.endx);
    let second = &body.memes[1];
    assert_eq!("＼", second.left_side);
    assert_eq!("Gimme", second.right_side);
    assert_eq!("^_^ ", second.head.face);
    assert_eq!(9, second.start_position);
    assert_eq!(10, second.head.start_position);
    assert_eq!(15, second.head.end_position);
    assert_eq!(20, second.end_position);
    assert_eq!(13, second.head.startx);
    assert_eq!(18, second.head.endx);
    assert_eq!(vec![(24, String::from(" Five"))], body.rest_str);
    assert!(body.has_memes());
}

#[test]
fn sides_hold_no_space() {
    for line in [
        "a b(^_^)c d",
        "(a b)c(^_^)d e",
        "(^_^)x( y) z",
        "  (^_^)  ",
        "The rest of   凸(•̀_•́)凸❤️ ( ͡° ͜ʖ ͡°) \\(°□°)/层∀  the text is here",
    ] {
        for meme in parse_memes(line).memes {
            assert!(!meme.left_side.contains(' '), "line {:?}", line);
            assert!(!meme.right_side.contains(' '), "line {:?}", line);
            assert!(meme.head.endx > meme.head.startx);
            assert_eq!(
                meme.head.startx + 1 + meme.head.face.width(),
                meme.head.endx
            );
        }
    }
}

#[test]
fn a_later_face_of_a_word_takes_the_place_of_an_earlier_one() {
    let body = parse_memes("(^_^)(-_-)x");
    assert_eq!(1, body.memes.len());
    assert_eq!("-_-", body.memes[0].head.face);
    assert_eq!("(^_^)", body.memes[0].left_side);
    assert_eq!("x", body.memes[0].right_side);
    assert_eq!(5, body.memes[0].head.startx);
    assert_eq!(0, body.rest_str.len());
}

#[test]
fn a_second_parenthesis_inside_an_open_one_is_face_text() {
    let body = parse_memes("((^_^)");
    assert_eq!(1, body.memes.len());
    assert_eq!("(^_^", body.memes[0].head.face);
    assert_eq!(0, body.memes[0].head.startx);
    assert_eq!(5, body.memes[0].head.endx);
}

#[test]
fn text_in_parentheses_that_is_no_face_stays_in_the_leftover_text() {
    let body = parse_memes("ab(x + y) cd");
    assert_eq!(0, body.memes.len());
    assert_eq!(vec![(0, String::from("ab(x + y) cd"))], body.rest_str);
    let body = parse_memes("(a b)c(^_^)d e");
    assert_eq!(1, body.memes.len());
    assert_eq!("b)c", body.memes[0].left_side);
    assert_eq!("d", body.memes[0].right_side);
    assert_eq!(vec![(12, String::from(" e"))], body.rest_str);
}

#[test]
fn lines_without_a_face() {
    let body = parse_memes("");
    assert_eq!(0, body.memes.len());
    assert_eq!(0, body.rest_str.len());
    assert_eq!("", body.unify_rest_text());
    let body = parse_memes("   ");
    assert_eq!(0, body.memes.len());
    assert_eq!(vec![(0, String::from("   "))], body.rest_str);
    let body = parse_memes("a) b");
    assert_eq!(0, body.memes.len());
    assert_eq!(vec![(0, String::from("a) b"))], body.rest_str);
    let body = parse_memes("open (never closed");
    assert_eq!(0, body.memes.len());
    assert_eq!(vec![(0, String::from("open (never closed"))], body.rest_str);
}

#[test]
fn a_face_is_at_most_ten_columns_wide() {
    assert!(is_meme("^_^^_^^_^_"));
    assert!(!is_meme("^_^^_^^_^_^"));
    assert!(is_meme("凸凸凸凸凸"));
    assert!(!is_meme("凸凸凸凸凸_"));
    assert!(is_face(10, true, true));
    assert!(!is_face(11, true, false));
    assert!(is_face(0, false, false));
    assert!(!is_face(0, false, true));
}

#[test]
fn what_speaks_for_a_face() {
    assert!(is_meme("é"));
    assert!(is_expression("é"));
    assert!(is_meme("\u{0}"));
    assert!(!is_meme(""));
    assert!(is_face_evidence('a', 2, Some(1)));
    assert!(is_face_evidence('a', 1, Some(2)));
    assert!(is_face_evidence('a', 1, Some(0)));
    assert!(!is_face_evidence('a', 1, Some(1)));
    assert!(!is_face_evidence('a', 1, None));
    assert!(is_face_evidence('\u{3e8}', 1, Some(1)));
    assert!(!is_face_evidence('\u{3e7}', 1, Some(1)));
}

#[test]
fn plain_expressions() {
    for c in ['+', '-', '*', '/', '^', '%', '!', ',', '.', '=', '|', '&'] {
        assert!(is_operator(c));
    }
    for c in ['_', ' ', 'x', '(', ')', '<', '~', '@'] {
        assert!(!is_operator(c));
    }
    assert!(is_expression(""));
    assert!(is_expression("a1 + b2"));
    assert!(!is_expression("a_b"));
    assert!(!is_expression("a(b"));
    assert!(is_alphanumeric_space_operator("x^2 * y^2"));
    assert!(!is_alphanumeric_space_operator("x_x"));
    assert!(is_expression_char(' ', false));
    assert!(is_expression_char('_', true));
    assert!(!is_expression_char('_', false));
}

#[test]
fn columns_of_characters() {
    assert_eq!(1, columns_of('a'));
    assert_eq!(2, columns_of('凸'));
    assert_eq!(0, columns_of('\u{301}'));
    assert_eq!(0, columns_of('\t'));
    assert_eq!(1, columns_of(' '));
}

#[test]
fn reserved_characters_are_escaped() {
    assert_eq!("&quot;", escape_char(&'"'));
    assert_eq!("&apos;", escape_char(&'\''));
    assert_eq!("&lt;", escape_char(&'<'));
    assert_eq!("&gt;", escape_char(&'>'));
    assert_eq!("&amp;", escape_char(&'&'));
    assert_eq!("a", escape_char(&'a'));
    assert_eq!("凸", escape_char(&'凸'));
    assert_eq!("", escape_str(""));
    assert_eq!(
        "&lt;a href=&quot;x&quot;&gt;&apos;&amp;&apos;&lt;/a&gt;",
        escape_str("<a href=\"x\">'&'</a>")
    );
}

#[test]
fn lines_are_split_at_line_feeds() {
    assert_eq!(Vec::<String>::new(), split_lines(""));
    assert_eq!(vec![String::from("a")], split_lines("a"));
    assert_eq!(vec![String::from("a")], split_lines("a\n"));
    assert_eq!(vec![String::from("a"), String::from("")], split_lines("a\n\n"));
    assert_eq!(vec![String::from("")], split_lines("\n"));
    assert_eq!(
        vec![String::from("a"), String::from("b\rc"), String::from("d\r")],
        split_lines("a\r\nb\rc\nd\r")
    );
    assert_eq!(vec![String::from("a\r")], split_lines("a\r\r\n"));
    for text in ["", "a", "a\n", "a\n\n", "\n", "a\r\nb\rc\nd\r", "a\r\r\n", "\r", "x\n\ry"] {
        let expected: Vec<String> = text.lines().map(String::from).collect();
        assert_eq!(expected, split_lines(text), "text {:?}", text);
    }
}

#[test]
fn the_grid_of_a_text() {
    assert_eq!((0, 0), calc_dimension(""));
    assert_eq!((3, 1), calc_dimension("abc"));
    assert_eq!((4, 3), calc_dimension("abc\n凸凸\n\n"));
    assert_eq!((5, 2), calc_dimension("a\r\n(^_^)"));
}

#[test]
fn a_text_is_drawn_line_by_line() {
    let text = "no face here\nhello (^_^) world\n\n(x+y)\nヘ( ^_^)ノ";
    let (elements, rest) = get_meme_svg(text);
    assert_eq!(8, elements.len());
    assert_eq!("no face here\nhello       world\n\n(x+y)\n\n", rest);
    match &elements[1] {
        Primitive::Circle(c) => {
            assert_eq!(6 + 10, c.cx);
            assert_eq!(4 * 1 + 2, c.cy);
            assert_eq!(4, c.r);
        }
        Primitive::Text(_) => panic!("the circle comes second"),
    }
    match &elements[5] {
        Primitive::Circle(c) => {
            assert_eq!(2 + 7, c.cx);
            assert_eq!(4 * 4 + 2, c.cy);
            assert_eq!(5, c.r);
        }
        Primitive::Text(_) => panic!("the circle comes second"),
    }
    assert_eq!(8, to_svg_lines(text).len());
    assert_eq!(0, to_svg_lines("").len());
}

#[test]
fn the_drawing_of_a_text() {
    let document = to_svg("hello (^_^) world\nヘ( ^_^)ノ\n");
    assert_eq!(2 * 17, document.width);
    assert_eq!(4 * (2 + 2), document.height);
    assert_eq!(get_styles(), document.styles);
    assert_eq!(8, document.elements.len());
    assert!(document.styles.contains("tspan.head{"));
    let empty = to_svg("");
    assert_eq!(0, empty.width);
    assert_eq!(8, empty.height);
    assert_eq!(0, empty.elements.len());
}

#[test]
fn the_scan_can_be_driven_by_hand() {
    let mut scanner = Scanner::new();
    for (c, columns, is_face) in [
        ('a', 1, false),
        (' ', 1, false),
        ('b', 1, false),
        ('(', 1, false),
        ('x', 2, false),
        (')', 1, true),
        ('c', 1, false),
        (' ', 1, false),
        ('d', 1, false),
    ] {
        assert_eq!(c == ')', scanner.closes(c));
        if c == ')' {
            assert_eq!("x", scanner.face());
        }
        scanner = scanner.step_with(c, columns, is_face);
    }
    let body = scanner.finish();
    assert_eq!(1, body.memes.len());
    assert_eq!("b", body.memes[0].left_side);
    assert_eq!("c", body.memes[0].right_side);
    assert_eq!(3, body.memes[0].head.startx);
    assert_eq!(6, body.memes[0].head.endx);
    assert_eq!(
        vec![(0, String::from("a")), (8, String::from(" d"))],
        body.rest_str
    );
    let mut scanner = Scanner::new();
    for c in "(^_^) x".chars() {
        scanner = scanner.step(c);
    }
    let body = scanner.finish();
    assert_eq!(1, body.memes.len());
    assert_eq!(vec![(5, String::from(" x"))], body.rest_str);
}
