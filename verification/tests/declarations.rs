use svg_restyle::css::{
    escape_dollars, pattern_for, replacement_for, rewrite_declaration, rewritten_or_kept,
};
use svg_restyle::search::{bytes_equal, contains, starts_at};
use svg_restyle::transducer::Transducer;

#[test]
fn a_declaration_keeps_its_head_and_its_neighbours() {
    assert_eq!(
        rewrite_declaration("a{stroke:red;fill:green}", "stroke", "blue"),
        "a{stroke:blue;fill:green}"
    );
}

#[test]
fn white_space_round_the_colon_stays() {
    assert_eq!(rewrite_declaration("stroke \t:\n  red ;x", "stroke", "blue"), "stroke \t:\n  blue;x");
}

#[test]
fn every_declaration_is_rewritten() {
    assert_eq!(
        rewrite_declaration("a{stroke:red;} b{stroke: #000;fill:x;stroke:y}", "stroke", "v"),
        "a{stroke:v;} b{stroke: v;fill:x;stroke:v"
    );
}

#[test]
fn the_name_is_matched_as_it_is_written() {
    assert_eq!(rewrite_declaration("Stroke:red;STROKE:red;", "stroke", "v"), "Stroke:red;STROKE:red;");
    assert_eq!(rewrite_declaration("stroke-width:2;", "stroke", "v"), "stroke-width:2;");
    assert_eq!(rewrite_declaration("mystroke:2;", "stroke", "v"), "mystroke:v;");
}

#[test]
fn a_declaration_without_a_value_is_left() {
    assert_eq!(rewrite_declaration("stroke:;x", "stroke", "v"), "stroke:;x");
    assert_eq!(rewrite_declaration("stroke:", "stroke", "v"), "stroke:");
    assert_eq!(rewrite_declaration("stroke: ;x", "stroke", "v"), "stroke:v;x");
}

#[test]
fn a_text_without_a_declaration_is_left() {
    assert_eq!(rewrite_declaration("a stroke of luck", "stroke", "v"), "a stroke of luck");
    assert_eq!(rewrite_declaration("", "stroke", "v"), "");
}

#[test]
fn a_dollar_sign_in_the_value_stands_for_itself() {
    assert_eq!(rewrite_declaration("stroke:red;", "stroke", "$1"), "stroke:$1;");
    assert_eq!(rewrite_declaration("stroke:red;", "stroke", "${2}$$a$"), "stroke:${2}$$a$;");
}

#[test]
fn a_property_that_makes_no_expression_leaves_the_text() {
    assert_eq!(rewrite_declaration("(:red;", "(", "v"), "(:red;");
}

#[test]
fn dollars_are_doubled() {
    assert_eq!(escape_dollars(""), "");
    assert_eq!(escape_dollars("currentColor"), "currentColor");
    assert_eq!(escape_dollars("a$b$$"), "a$$b$$$$");
    assert_eq!(escape_dollars("$\u{e9}\u{20ac}$"), "$$\u{e9}\u{20ac}$$");
}

#[test]
fn the_pattern_wraps_the_property() {
    assert_eq!(pattern_for("stroke"), "(stroke\\s*:\\s*)([^;]+)");
    assert_eq!(pattern_for(""), "(\\s*:\\s*)([^;]+)");
}

#[test]
fn the_replacement_keeps_the_first_group() {
    assert_eq!(replacement_for("blue"), "${1}blue");
    assert_eq!(replacement_for("$"), "${1}$$");
}

#[test]
fn a_missing_rewrite_keeps_the_text() {
    assert_eq!(rewritten_or_kept("old", Some(String::from("new"))), "new");
    assert_eq!(rewritten_or_kept("old", None), "old");
}

#[test]
fn a_pass_rewrites_its_declarations() {
    let text = "a{width:1;height:2;stroke:red;stroke-width:3;}";
    assert_eq!(
        Transducer::Size.restyle_text(text, "9"),
        "a{width:9;height:9;stroke:red;stroke-width:9;}"
    );
    assert_eq!(
        Transducer::StrokeWidth.restyle_text(text, "9"),
        "a{width:1;height:2;stroke:red;stroke-width:9;}"
    );
    assert_eq!(
        Transducer::Colour.restyle_text(text, "9"),
        "a{width:1;height:2;stroke:9;stroke-width:3;}"
    );
}

#[test]
fn a_pass_asks_for_its_names_in_a_text() {
    assert!(Transducer::Size.targets_text(b"a width"));
    assert!(Transducer::Size.targets_text(b"height"));
    assert!(Transducer::Size.targets_text(b"stroke-width"));
    assert!(!Transducer::Size.targets_text(b"widt heigh"));
    assert!(Transducer::StrokeWidth.targets_text(b"xstroke-widthx"));
    assert!(!Transducer::StrokeWidth.targets_text(b"stroke width"));
    assert!(Transducer::Colour.targets_text(b"stroke-width"));
    assert!(!Transducer::Colour.targets_text(b"Stroke"));
    assert!(!Transducer::Colour.targets_text(b""));
}

#[test]
fn contains_finds_a_word_anywhere() {
    assert!(contains(b"stroke", b"stroke"));
    assert!(contains(b"a stroke", b"stroke"));
    assert!(contains(b"stroke b", b"stroke"));
    assert!(contains(b"sstroke", b"stroke"));
    assert!(!contains(b"strok", b"stroke"));
    assert!(!contains(b"stro ke", b"stroke"));
    assert!(!contains(b"", b"stroke"));
    assert!(contains(b"abc", b""));
    assert!(contains(b"", b""));
}

#[test]
fn starts_at_looks_at_one_place() {
    assert!(starts_at(b"a stroke", b"stroke", 2));
    assert!(!starts_at(b"a stroke", b"stroke", 1));
    assert!(!starts_at(b"a stroke", b"stroke", 3));
    assert!(!starts_at(b"a stroke", b"stroke", 100));
    assert!(starts_at(b"abc", b"", 3));
    assert!(!starts_at(b"abc", b"", 4));
}

#[test]
fn bytes_are_equal_when_all_are() {
    assert!(bytes_equal(b"svg", b"svg"));
    assert!(!bytes_equal(b"svg", b"svh"));
    assert!(!bytes_equal(b"svg", b"sv"));
    assert!(bytes_equal(b"", b""));
}
