use sneturfahi::span::Span;

#[test]
fn overlaps_with() {
    let span = Span::new(10, 20);
    // fully before
    assert_eq!(Span::new(0, 5).overlaps_with(span), false);
    // partially overlapping before
    assert_eq!(Span::new(5, 12).overlaps_with(span), true,);
    // fully within
    assert_eq!(Span::new(12, 18).overlaps_with(span), true);
    // empty within: an empty span holds no byte, so it overlaps nothing
    assert_eq!(Span::at(12, 0).overlaps_with(span), false);
    // partially overlapping after
    assert_eq!(Span::new(18, 22).overlaps_with(span), true);
    // fully after
    assert_eq!(Span::new(22, 24).overlaps_with(span), false);
    // back-to-back before
    assert_eq!(Span::new(0, 10).overlaps_with(span), false);
    // back-to-back after
    assert_eq!(Span::new(20, 30).overlaps_with(span), false);
    // empty immediately before
    assert_eq!(Span::at(10, 0).overlaps_with(span), false);
    // empty immediately after
    assert_eq!(Span::at(20, 0).overlaps_with(span), false);
}

#[test]
fn span_new_and_at() {
    let span = Span::new(1, 3);
    assert_eq!(span.len(), 2);
    assert_eq!(span.slice("abcdef").unwrap(), "bc");
    let span = Span::at(2, 2);
    assert_eq!(span, Span { start: 2, end: 4 });
    assert_eq!(span.len(), 2);
    assert_eq!(span.slice("abcdef").unwrap(), "cd");
    assert_eq!(Span::at(1, 3).len(), 3);
}

#[test]
fn span_is_empty() {
    assert_eq!(Span::new(10, 20).is_empty(), false);
    assert_eq!(Span::new(10, 10).is_empty(), true);
    assert_eq!(Span::at(5, 0).is_empty(), true);
}

#[test]
fn span_between() {
    let input = "abcdefghi";
    let before_span = Span::at(0, 3);
    let after_span = Span::at(6, 3);
    let between_span = Span::between(before_span, after_span).unwrap();
    assert_eq!(between_span, Span::at(3, 3));
    assert_eq!(between_span.slice(input).unwrap(), "def");
    assert_eq!(Span::between(after_span, before_span), None);
    assert_eq!(Span::between(Span::new(0, 5), Span::new(3, 8)), None);
    assert_eq!(Span::between(Span::new(0, 5), Span::new(5, 8)), None);
    assert_eq!(Span::between(Span::new(0, 5), Span::new(6, 8)), Some(Span::new(5, 6)));
}

#[test]
fn span_entire_slice() {
    let input = "abcdef";
    let span = Span::entire_slice(input);
    assert_eq!(span.len(), input.len() as u32);
    assert_eq!(span.slice(input).unwrap(), input);
    assert_eq!(Span::entire_slice(""), Span::new(0, 0));
}

#[test]
fn span_from_embedded_slice() {
    let input = "abc def ghi";
    let mut offset = 0;
    let mut spans = Vec::new();
    for chunk in input.split(' ') {
        spans.push(Span::from_embedded_slice(offset, chunk));
        offset += chunk.len() + 1;
    }
    assert_eq!(spans, [Span::at(0, 3), Span::at(4, 3), Span::at(8, 3)]);
}

#[test]
fn span_slice() {
    let span = Span::at(1, 3);
    assert_eq!(span.slice("abcdef").unwrap(), "bcd");
    assert!(span.slice("gg").is_none());
    assert_eq!(span.slice("zyxwvutsr").unwrap(), "yxw");
    assert_eq!(Span::at(5, 3).slice("abcdef"), None);
    assert_eq!(Span::new(0, 0).slice(""), Some(""));
    // not between two characters
    assert_eq!(Span::new(0, 1).slice("\u{e9}"), None);
    assert_eq!(Span::new(1, 2).slice("\u{e9}"), None);
    assert_eq!(Span::new(0, 2).slice("\u{e9}"), Some("\u{e9}"));
    // a span that ends before it starts delineates nothing
    assert_eq!(Span { start: 3, end: 1 }.slice("abcdef"), None);
}

#[test]
fn span_slice_after_and_before() {
    let input = "abcdef";
    assert_eq!(Span::at(2, 2).slice_after(input), Some("ef"));
    assert_eq!(Span::at(5, 3).slice_after(input), None);
    assert_eq!(Span::at(2, 4).slice_after(input), Some(""));
    assert_eq!(Span::at(2, 3).slice_before(input), Some("ab"));
    assert_eq!(Span::at(7, 3).slice_before(input), None);
    assert_eq!(Span::at(0, 3).slice_before(input), Some(""));
    assert_eq!(Span::at(1, 1).slice_before("\u{e9}"), None);
    assert_eq!(Span::at(0, 1).slice_after("\u{e9}"), None);
}

#[test]
fn span_contains() {
    let span = Span::new(3, 6);
    assert!(!span.contains(2));
    assert!(span.contains(3));
    assert!(span.contains(4));
    assert!(span.contains(5));
    assert!(!span.contains(6));
}

#[test]
fn span_overlap_examples() {
    assert_eq!(Span::new(10, 30).overlaps_with(Span::new(20, 40)), true);
    assert_eq!(Span::new(0, 10).overlaps_with(Span::new(20, 30)), false);
    assert_eq!(Span::at(10, 0).overlaps_with(Span::new(10, 20)), false);
    assert_eq!(Span::at(20, 0).overlaps_with(Span::new(10, 20)), false);
    assert_eq!(Span::at(0, 0).overlaps_with(Span::new(5, 6)), false);
    assert_eq!(Span::new(5, 6).overlaps_with(Span::at(0, 0)), false);
    assert_eq!(Span::at(7, 0).overlaps_with(Span::at(7, 0)), false);
    assert_eq!(Span::at(12, 0).overlaps_with(Span::new(10, 20)), false);
    assert_eq!(Span::new(10, 20).overlaps_with(Span::at(12, 0)), false);
    assert_eq!(Span::new(10, 20).overlaps_with(Span::at(19, 1)), true);
    // overlapping is symmetric
    for (a, b) in [(Span::new(1, 4), Span::new(3, 9)), (Span::at(2, 0), Span::new(1, 4))] {
        assert_eq!(a.overlaps_with(b), b.overlaps_with(a));
    }
}

#[test]
fn span_order() {
    assert!(Span::new(1, 5).precedes(Span::new(2, 3)));
    assert!(Span::new(1, 3).precedes(Span::new(1, 5)));
    assert!(!Span::new(1, 5).precedes(Span::new(1, 5)));
    assert!(!Span::new(2, 3).precedes(Span::new(1, 5)));
    assert!(!Span::new(1, 5).precedes(Span::new(1, 3)));
}
