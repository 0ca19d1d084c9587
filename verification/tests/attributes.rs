use svg_restyle::attribute::{
    pad_attributes, replace_attribute, resize_attributes, Attribute, AttributeItem,
};
use svg_restyle::property::Property;
use svg_restyle::transducer::Transducer;

fn item(key: &str, value: &str) -> AttributeItem {
    Some(Attribute { key: key.as_bytes().to_vec(), value: value.as_bytes().to_vec() })
}

fn pairs(attributes: &[Attribute]) -> Vec<(String, String)> {
    attributes
        .iter()
        .map(|a| {
            (String::from_utf8(a.key.clone()).unwrap(), String::from_utf8(a.value.clone()).unwrap())
        })
        .collect()
}

fn pair(key: &str, value: &str) -> (String, String) {
    (String::from(key), String::from(value))
}

#[test]
fn replace_sets_every_value_under_the_key() {
    let items = vec![item("a", "1"), item("stroke", "red"), None, item("stroke", "x"), item("b", "2")];
    let out = replace_attribute(&items, b"stroke", b"blue");
    assert_eq!(
        pairs(&out),
        vec![pair("a", "1"), pair("stroke", "blue"), pair("stroke", "blue"), pair("b", "2")]
    );
}

#[test]
fn replace_matches_the_whole_key_only() {
    let items = vec![item("stroke-width", "2"), item("strok", "3"), item("Stroke", "4")];
    let out = replace_attribute(&items, b"stroke", b"blue");
    assert_eq!(pairs(&out), vec![pair("stroke-width", "2"), pair("strok", "3"), pair("Stroke", "4")]);
}

#[test]
fn replace_of_nothing_is_nothing() {
    let out = replace_attribute(&Vec::new(), b"stroke", b"blue");
    assert!(out.is_empty());
    let out = replace_attribute(&vec![None, None], b"stroke", b"blue");
    assert!(out.is_empty());
}

#[test]
fn replace_twice_is_replace_once() {
    let items = vec![item("a", "1"), item("stroke", "red")];
    let once = replace_attribute(&items, b"stroke", b"blue");
    let again: Vec<AttributeItem> = once.iter().cloned().map(Some).collect();
    let twice = replace_attribute(&again, b"stroke", b"blue");
    assert_eq!(pairs(&twice), pairs(&once));
}

#[test]
fn resize_sets_height_and_width() {
    let items =
        vec![item("width", "10"), item("viewBox", "0 0 1 1"), None, item("height", "20"), item("stroke-width", "3")];
    let out = resize_attributes(&items, b"256");
    assert_eq!(
        pairs(&out),
        vec![
            pair("width", "256"),
            pair("viewBox", "0 0 1 1"),
            pair("height", "256"),
            pair("stroke-width", "3")
        ]
    );
}

#[test]
fn pad_puts_height_and_width_before_each_attribute() {
    let items = vec![item("width", "10"), None, item("id", "x")];
    let out = pad_attributes(&items, b"256");
    assert_eq!(
        pairs(&out),
        vec![
            pair("height", "256"),
            pair("width", "256"),
            pair("width", "10"),
            pair("height", "256"),
            pair("width", "256"),
            pair("id", "x")
        ]
    );
    assert!(pad_attributes(&vec![None], b"256").is_empty());
}

#[test]
fn pad_triples_the_attributes_each_time() {
    let items = vec![item("a", "1"), item("b", "2")];
    let once = pad_attributes(&items, b"9");
    assert_eq!(once.len(), 6);
    let again: Vec<AttributeItem> = once.iter().cloned().map(Some).collect();
    assert_eq!(pad_attributes(&again, b"9").len(), 18);
}

#[test]
fn each_pass_picks_its_rewrite() {
    let items = vec![item("width", "1"), item("stroke", "red"), item("stroke-width", "2")];
    assert_eq!(
        pairs(&Transducer::Colour.restyle_attributes(false, &items, b"v")),
        vec![pair("width", "1"), pair("stroke", "v"), pair("stroke-width", "2")]
    );
    assert_eq!(
        pairs(&Transducer::StrokeWidth.restyle_attributes(true, &items, b"v")),
        vec![pair("width", "1"), pair("stroke", "red"), pair("stroke-width", "v")]
    );
    assert_eq!(
        pairs(&Transducer::Size.restyle_attributes(true, &items, b"v")),
        vec![pair("width", "v"), pair("stroke", "red"), pair("stroke-width", "2")]
    );
    assert_eq!(Transducer::Size.restyle_attributes(false, &items, b"v").len(), 9);
}

#[test]
fn two_passes_on_attributes_commute() {
    let items = vec![item("width", "1"), item("stroke", "red"), item("stroke-width", "2")];
    for self_closing in [true, false] {
        let size_then_colour = Transducer::Colour.restyle_attributes(
            self_closing,
            &Transducer::Size
                .restyle_attributes(self_closing, &items, b"s")
                .into_iter()
                .map(Some)
                .collect(),
            b"c",
        );
        let colour_then_size = Transducer::Size.restyle_attributes(
            self_closing,
            &Transducer::Colour
                .restyle_attributes(self_closing, &items, b"c")
                .into_iter()
                .map(Some)
                .collect(),
            b"s",
        );
        assert_eq!(pairs(&size_then_colour), pairs(&colour_then_size));
    }
}

#[test]
fn only_the_size_pass_asks_for_the_root() {
    assert!(Transducer::Size.targets_element(b"svg"));
    assert!(!Transducer::Size.targets_element(b"g"));
    assert!(!Transducer::Size.targets_element(b"svgx"));
    assert!(!Transducer::Size.targets_element(b"SVG"));
    assert!(!Transducer::Size.targets_element(b""));
    assert!(Transducer::StrokeWidth.targets_element(b"g"));
    assert!(Transducer::Colour.targets_element(b""));
}

#[test]
fn properties_have_their_names() {
    assert_eq!(Property::Width.name(), "width");
    assert_eq!(Property::Height.name(), "height");
    assert_eq!(Property::StrokeWidth.name(), "stroke-width");
    assert_eq!(Property::Stroke.name(), "stroke");
}
