use memenhancer::get_svg_elements;
use memenhancer::is_expression;
use memenhancer::is_meme;
use memenhancer::is_operator;
use memenhancer::parse_memes;
use unicode_width::UnicodeWidthStr;

#[test]
fn test_1line() {
    let meme = "";
    let nodes = get_svg_elements(0, meme);
    assert_eq!(nodes.len(), 0);
}

#[test]
fn test_meme() {
    assert!(is_meme(" ͡° ͜ʖ ͡°"));
    assert!(is_meme("⌐■_■"));
    assert!(is_meme("ツ"));
    assert!(!is_meme("svgbobg"));
    assert!(!is_meme("not a meme in space"));
    assert!(is_meme(" -_- "));
    assert!(is_meme("-_-"));
    assert!(!is_meme("     "));
}

#[test]
fn test_expression() {
    assert!(is_meme("^_^"));
    assert!(is_meme("x_x"));
    assert!(!is_meme("+"));
    assert!(!is_meme("x+y"));
    assert!(!is_meme("x^2*y^2"));
    assert!(!is_meme("x^2 * y^2"));
}

#[test]
fn test_bound() {
    let meme = "(♥_♥)";
    let memes = parse_memes(meme);
    for m in memes.memes {
        let b = m.head;
        println!("bound {:?} d:{} ", b, b.distance());
        assert_eq!(4, b.distance());
    }
}

#[test]
fn test_operator() {
    assert!(!is_expression("^_^"));
    assert!(is_operator('+'));
    assert!(is_expression("+"));
    assert!(is_expression("x+y"));
    assert!(is_expression("x^2*y^2"));
    assert!(is_expression("x^2 * y^2"));
}

#[test]
fn test_body() {
    let meme = "( ^_^)ノ";
    println!("{}", meme);
    let bodies = parse_memes(meme);
    for b in &bodies.memes {
        println!("{:#?}", b);
    }
    assert_eq!(1, bodies.memes.len());
}

#[test]
fn test_body2() {
    let meme = "ヘ( ^_^)ノ ＼(^_^ )Gimme Five";
    println!("{}", meme);
    let bodies = parse_memes(meme);
    for b in &bodies.memes {
        println!("{:#?}", b);
    }
    assert_eq!(2, bodies.memes.len());
}

#[test]
fn test_rest_of_text() {
    let meme = r#"The rest of   凸(•̀_•́)凸❤️ ( ͡° ͜ʖ ͡°) \(°□°)/层∀  the text is here"#;
    println!("{}", meme);
    let bodies = parse_memes(meme);
    println!("{:#?}", bodies);
    assert_eq!(3, bodies.memes.len());
    assert_eq!(2, bodies.rest_str.len());
}

#[test]
fn test_unify_rest_of_text() {
    let meme = r#"The rest of   凸(•̀_•́)凸❤️ ( ͡° ͜ʖ ͡°) \(°□°)/层∀  the text is here"#;
    let resi = r#"The rest of                                   the text is here"#;
    println!("{}", meme);
    let bodies = parse_memes(meme);
    println!("{:#?}", bodies);
    assert_eq!(3, bodies.memes.len());
    assert_eq!(2, bodies.rest_str.len());
    assert_eq!(meme.width(), bodies.unify_rest_text().width());
    println!(
        "residue: {} meme: {} rest_text:{}",
        resi.width(),
        meme.width(),
        bodies.unify_rest_text().width()
    );
    assert_eq!(resi.to_string(), bodies.unify_rest_text());
}

#[test]
fn test_meme_equation() {
    let meme = r#"Equations are not rendered? ( -_- )  __(x+y)__  (^_^) (x^2+y^2)x"#;
    println!("{}", meme);
    let bodies = parse_memes(meme);
    println!("{:#?}", bodies);
    assert_eq!(2, bodies.memes.len());
    assert_eq!(3, bodies.rest_str.len());
}

#[test]
fn test_meme_equation2() {
    let meme = r#"( -_- ) __(x+y)__ (^_^) (x^2+y^2)"#;
    println!("{}", meme);
    let bodies = parse_memes(meme);
    println!("{:#?}", bodies);
    assert_eq!(2, bodies.memes.len());
    assert_eq!(2, bodies.rest_str.len());
}

#[test]
fn test_meme_unmatched_face() {
    let meme = r#"(╯°□°] ╯︵ ┬─┻"#;
    println!("{}", meme);
    let bodies = parse_memes(meme);
    println!("{:#?}", bodies);
    assert_eq!(0, bodies.memes.len());
    assert_eq!(1, bodies.rest_str.len());
}
