use excise::{apply_matches, filter_bytes, filter_step, FilterState, Output, Pattern, RegionFilter};

fn pattern(s: &str) -> Pattern {
    match Pattern::new(s) {
        Ok(p) => p,
        Err(e) => panic!("pattern {} refused: {}", e.pattern, e.message),
    }
}

fn filter(input: &str, start: &str, end: &str, size: usize) -> String {
    let out = filter_bytes(&pattern(start), &pattern(end), input.as_bytes(), size);
    String::from_utf8(out).unwrap()
}

#[test]
fn removes_the_span_between_the_matches() {
    assert_eq!(
        filter("head-START-middle-END-tail", "START", "END", 100000),
        "head-STARTEND-tail"
    );
}

#[test]
fn unterminated_region_drops_the_tail() {
    assert_eq!(filter("AAA<START>BBB", "<START>", "<END>", 100000), "AAA<START>");
}

#[test]
fn passthrough_without_start_match() {
    let input = "nothing to see here, just text\nover two lines";
    for size in [1, 2, 3, 7, 100, 100000] {
        assert_eq!(filter(input, "START", "END", size), input);
    }
}

#[test]
fn passthrough_of_multibyte_text_on_whole_chunks() {
    let input = "héllo wörld";
    assert_eq!(filter(input, "START", "END", 100), input);
}

#[test]
fn filtering_own_output_again_is_a_no_op() {
    let first = filter("keep [cut this] keep", r"\[", r"\]", 100000);
    assert_eq!(first, "keep [] keep");
    let second = filter(&first, "START", "END", 3);
    assert_eq!(second, first);
}

#[test]
fn single_region_keeps_both_matches() {
    assert_eq!(filter("ab<x>cd</x>ef", "<x>", "</x>", 1000), "ab<x></x>ef");
}

#[test]
fn chunk_size_does_not_matter_when_no_match_spans_a_boundary() {
    let input = "abcdeS-x-Efghij";
    let small = filter(input, "S", "E", 5);
    let large = filter(input, "S", "E", 100000);
    assert_eq!(small, "abcdeSEfghij");
    assert_eq!(small, large);
}

#[test]
fn region_spanning_chunks_is_removed() {
    assert_eq!(filter("aaSbbbbbbbbEcc", "S", "E", 4), "aaSEcc");
}

#[test]
fn only_the_first_region_of_a_chunk_is_removed() {
    assert_eq!(filter("aSxEbSyEc", "S", "E", 100), "aSEbSyEc");
}

#[test]
fn match_across_a_boundary_is_not_seen() {
    assert_eq!(filter("abSTART-x-END", "START", "END", 4), "abSTART-x-END");
}

#[test]
fn leftmost_regex_match_is_used() {
    assert_eq!(filter("x 12 y 345 z", "[0-9]+", "[a-z]", 100), "x 12y 345 z");
}

#[test]
fn end_before_start_is_ignored_inside_a_region() {
    let mut f = RegionFilter::new(pattern("S"), pattern("E"));
    assert_eq!(f.feed(b"..S.."), b"..S".to_vec());
    assert!(f.is_inside());
    assert_eq!(f.feed(b"aEbScEd"), b"Ed".to_vec());
    assert!(!f.is_inside());
}

#[test]
fn start_inside_a_region_without_end_forwards_nothing() {
    let mut f = RegionFilter::new(pattern("S"), pattern("E"));
    assert_eq!(f.feed(b"xSy"), b"xS".to_vec());
    assert_eq!(f.feed(b"aSb"), Vec::<u8>::new());
    assert!(f.is_inside());
    assert_eq!(f.feed(b"cEd"), b"Ed".to_vec());
    assert_eq!(f.state, FilterState::Outside);
}

#[test]
fn inside_chunk_without_matches_forwards_nothing() {
    let (state, out) = filter_step(FilterState::InsideRegion, &pattern("S"), &pattern("E"), b"zzz");
    assert_eq!(state, FilterState::InsideRegion);
    assert!(out.is_empty());
}

#[test]
fn invalid_utf8_is_replaced() {
    let (state, out) = filter_step(FilterState::Outside, &pattern("S"), &pattern("E"), &[b'a', 0xFF, b'b']);
    assert_eq!(state, FilterState::Outside);
    assert_eq!(out, vec![b'a', 0xEF, 0xBF, 0xBD, b'b']);
}

#[test]
fn split_multibyte_character_becomes_replacement_characters() {
    let out = filter_bytes(&pattern("S"), &pattern("E"), "é".as_bytes(), 1);
    assert_eq!(out, vec![0xEF, 0xBF, 0xBD, 0xEF, 0xBF, 0xBD]);
}

#[test]
fn empty_input_gives_empty_output() {
    assert_eq!(filter("", "S", "E", 10), "");
}

#[test]
fn invalid_pattern_is_refused() {
    match Pattern::new("foo(bar") {
        Ok(_) => panic!("pattern accepted"),
        Err(e) => {
            assert_eq!(e.pattern, "foo(bar");
            assert!(!e.message.is_empty());
        }
    }
}

#[test]
fn pattern_keeps_its_source() {
    assert_eq!(pattern("a+b").as_str(), "a+b");
}

#[test]
fn apply_matches_outside_with_both_matches() {
    let text = b"head-START-middle-END-tail";
    let (state, out) = apply_matches(FilterState::Outside, text, Some((5, 10)), Some((8, 11)));
    assert_eq!(state, FilterState::Outside);
    assert_eq!(out, b"head-STARTEND-tail".to_vec());
}

#[test]
fn apply_matches_outside_without_end() {
    let (state, out) = apply_matches(FilterState::Outside, b"ab<s>cd", Some((2, 5)), None);
    assert_eq!(state, FilterState::InsideRegion);
    assert_eq!(out, b"ab<s>".to_vec());
}

#[test]
fn apply_matches_inside_with_end_only() {
    let (state, out) = apply_matches(FilterState::InsideRegion, b"xx<e>yy", None, Some((2, 5)));
    assert_eq!(state, FilterState::Outside);
    assert_eq!(out, b"<e>yy".to_vec());
}

#[test]
fn apply_matches_outside_without_start_passes_all() {
    let (state, out) = apply_matches(FilterState::Outside, b"plain", None, Some((0, 1)));
    assert_eq!(state, FilterState::Outside);
    assert_eq!(out, b"plain".to_vec());
}

#[test]
fn output_accumulates_in_order() {
    let mut o = Output::new();
    assert!(o.buffer.is_empty());
    o.write(b"abc");
    o.write(b"");
    o.write(b"de");
    assert_eq!(o.buffer, b"abcde".to_vec());
}
