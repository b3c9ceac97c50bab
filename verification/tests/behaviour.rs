use ezstr::grapheme::Grapheme;
use ezstr::locator::locate;
use ezstr::matching::{literal_occurrences, GraphemeMatch};
use ezstr::string::{resolve_index, EzStr};
use regex::Regex;

fn texts(s: &EzStr) -> Vec<String> {
    s.graphemes().iter().map(|g| g.value.clone()).collect()
}

#[test]
fn grapheme_new_copies_its_text() {
    let g = Grapheme::new("e\u{301}");
    assert_eq!(g.value, "e\u{301}");
    assert_eq!(g, Grapheme::new("e\u{301}"));
    assert_ne!(g, Grapheme::new("e"));
}

#[test]
fn segmentation_keeps_combining_marks_together() {
    let s = EzStr::new("e\u{301}x");
    assert_eq!(texts(&s), vec!["e\u{301}".to_string(), "x".to_string()]);
    assert_eq!(s.graphemes_byte_index(), &vec![(0usize, 0usize), (3, 1)]);
    assert_eq!(s.len(), 2);
    assert_eq!(s.as_str().chars().count(), 3);
    assert_eq!(s.as_str().len(), 4);
}

#[test]
fn length_counts_clusters_not_code_points() {
    let family = EzStr::new("\u{1F468}\u{200D}\u{1F469}\u{200D}\u{1F467}");
    assert_eq!(family.len(), 1);
    assert!(family.len() < family.as_str().chars().count());
    let flag = EzStr::new("\u{1F1E8}\u{1F1E6}!");
    assert_eq!(flag.len(), 2);
    let plain = EzStr::new("hello");
    assert_eq!(plain.len(), 5);
}

#[test]
fn empty_string_has_no_clusters() {
    let s = EzStr::new("");
    assert_eq!(s.len(), 0);
    assert!(s.is_empty());
    assert!(s.graphemes().is_empty());
    assert!(s.graphemes_byte_index().is_empty());
    assert_eq!(s.slice(0, -1), s);
    assert_eq!(s.slice(0, 0), s);
    assert!(!EzStr::new(" ").is_empty());
}

#[test]
fn identity_slice_returns_the_whole_string() {
    for text in ["", "a", "abc", "e\u{301}\u{1F468}\u{200D}\u{1F469}z", "\u{1D194}\u{266A} \u{1D194}\u{266A}", "line\r\nbreak"] {
        let s = EzStr::new(text);
        assert_eq!(s.slice(0, -1), s);
        assert_eq!(s.slice(0, -1).as_str(), text);
    }
}

#[test]
fn negative_indices_count_from_one_past_the_end() {
    let s = EzStr::new("abcde");
    assert_eq!(s.slice(0, -1).as_str(), "abcde");
    assert_eq!(s.slice(0, -2).as_str(), "abcd");
    assert_eq!(s.slice(-3, -1).as_str(), "de");
    assert_eq!(s.slice(1, -2).as_str(), "bcd");
    assert_eq!(s.slice(-6, -1).as_str(), "abcde");
    assert_eq!(s.slice(-1, -1).as_str(), "");
    assert_eq!(s.slice(1, 3).as_str(), "bc");
    assert_eq!(s.slice(3, 1).as_str(), "");
    assert_eq!(s.slice(5, 5).as_str(), "");
}

#[test]
fn resolve_index_follows_the_remapping_formula() {
    assert_eq!(resolve_index(5, -1), Some(5));
    assert_eq!(resolve_index(5, -2), Some(4));
    assert_eq!(resolve_index(5, -6), Some(0));
    assert_eq!(resolve_index(5, -7), None);
    assert_eq!(resolve_index(5, 0), Some(0));
    assert_eq!(resolve_index(5, 5), Some(5));
    assert_eq!(resolve_index(5, 6), None);
    assert_eq!(resolve_index(0, -1), Some(0));
    assert_eq!(resolve_index(0, i32::MIN), None);
    assert_eq!(resolve_index(usize::MAX, i32::MIN), Some(usize::MAX - 2147483647));
}

#[test]
fn try_slice_rejects_indices_out_of_range() {
    let s = EzStr::new("abc");
    assert_eq!(s.try_slice(0, -1), Some(EzStr::new("abc")));
    assert_eq!(s.try_slice(1, 2), Some(EzStr::new("b")));
    assert_eq!(s.try_slice(0, 4), None);
    assert_eq!(s.try_slice(4, 4), None);
    assert_eq!(s.try_slice(-5, 1), None);
    assert_eq!(s.try_slice(0, -5), None);
    assert_eq!(s.try_slice(2, 1), Some(EzStr::new("")));
}

#[test]
fn slice_range_concatenates_whole_clusters() {
    let s = EzStr::new("ae\u{301}b");
    assert_eq!(s.slice_range(1, 2).as_str(), "e\u{301}");
    assert_eq!(s.slice_range(0, 3).as_str(), "ae\u{301}b");
    assert_eq!(s.slice_range(2, 1).as_str(), "");
}

#[test]
fn locate_finds_the_first_entry_at_or_after_an_offset() {
    let index = vec![(0usize, 0usize), (1, 1), (3, 2)];
    assert_eq!(locate(&index, 0), 0);
    assert_eq!(locate(&index, 1), 1);
    assert_eq!(locate(&index, 2), 2);
    assert_eq!(locate(&index, 3), 2);
    assert_eq!(locate(&index, 4), 3);
    assert_eq!(locate(&index, usize::MAX), 3);
    assert_eq!(locate(&Vec::new(), 0), 0);
    assert_eq!(locate(&Vec::new(), 7), 0);
}

#[test]
fn locator_is_total_and_monotone() {
    let s = EzStr::new("a\u{e9}e\u{301}\u{1F468}\u{200D}\u{1F469}z");
    let bytes = s.as_str().len();
    let mut last = 0usize;
    for b in 0..=bytes {
        let g = s.grapheme_index_of(b);
        assert!(g <= s.len());
        assert!(last <= g);
        last = g;
    }
    assert_eq!(s.grapheme_index_of(0), 0);
    assert_eq!(s.grapheme_index_of(bytes), s.len());
    assert_eq!(s.grapheme_index_of(bytes + 10), s.len());
}

#[test]
fn byte_ranges_resolve_to_grapheme_ranges() {
    let s = EzStr::new("a\u{e9}b");
    assert_eq!(s.graphemes_byte_index(), &vec![(0usize, 0usize), (1, 1), (3, 2)]);
    assert_eq!(s.byte_range_to_grapheme_indices(0, 1), (0, 1));
    assert_eq!(s.byte_range_to_grapheme_indices(1, 3), (1, 2));
    assert_eq!(s.byte_range_to_grapheme_indices(2, 4), (2, 3));
    assert_eq!(s.byte_range_to_grapheme_indices(3, 9), (2, 3));
}

#[test]
fn repeated_access_returns_the_same_caches() {
    let s = EzStr::new("e\u{301}\u{1D194}\u{266A}");
    let first = s.graphemes();
    let second = s.graphemes();
    assert!(std::ptr::eq(first, second));
    assert_eq!(first, second);
    let index_a = s.graphemes_byte_index();
    let index_b = s.graphemes_byte_index();
    assert!(std::ptr::eq(index_a, index_b));
    assert_eq!(index_a, index_b);
    assert_eq!(index_a.len(), first.len());
}

#[test]
fn equality_looks_at_the_raw_text_only() {
    let a = EzStr::new("abc");
    let b: EzStr = "abc".into();
    let c = EzStr::from(String::from("abc"));
    assert_eq!(a, b);
    assert_eq!(a, c);
    assert_eq!(a.clone(), a);
    assert_ne!(a, EzStr::new("abd"));
}

#[test]
fn contains_checks_the_raw_text() {
    let s = EzStr::new("caf\u{e9} au lait");
    assert!(s.contains("f\u{e9} a"));
    assert!(s.contains(""));
    assert!(!s.contains("latte"));
    assert!(!s.contains("caf\u{e9} au lait "));
}

#[test]
fn musical_symbols_match_twice() {
    let sample = EzStr::new("\u{1D194}\u{266A} \u{1D194}\u{266A}");
    let re = Regex::new(&regex::escape("\u{1D194}\u{266A}")).unwrap();
    let matches = sample.find_iter(&re);
    assert_eq!(matches.len(), 2);
    for m in &matches {
        assert_eq!(m.text, EzStr::new("\u{1D194}\u{266A}"));
        assert_eq!(m.as_str(), "\u{1D194}\u{266A}");
    }
    assert_eq!((matches[0].start, matches[0].end), (0, 2));
    assert_eq!((matches[1].start, matches[1].end), (3, 5));
}

#[test]
fn pipe_delimited_table_has_nine_pipes() {
    let sample = EzStr::new("|A|B|C|D|\n|E|F|G|");
    let re = Regex::new(&regex::escape("|")).unwrap();
    let matches = sample.find_iter(&re);
    assert_eq!(matches.len(), 9);
    let starts: Vec<usize> = matches.iter().map(|m| m.start).collect();
    assert_eq!(starts, vec![0, 2, 4, 6, 8, 10, 12, 14, 16]);
}

#[test]
fn contained_literal_is_found() {
    let sample = EzStr::new("a.b|c (d) e\u{301}+f");
    for p in ["a.b", "|", "(d)", "e\u{301}+", "b|c (", "f"] {
        assert!(sample.contains(p));
        let re = Regex::new(&regex::escape(p)).unwrap();
        let m = sample.find(&re);
        assert!(m.is_some());
        assert_eq!(m.unwrap().as_str(), p);
    }
}

#[test]
fn find_returns_the_first_match_only() {
    let sample = EzStr::new("xx e\u{301}1 e\u{301}2");
    let re = Regex::new("e\u{301}[0-9]").unwrap();
    let m = sample.find(&re).unwrap();
    assert_eq!((m.start, m.end), (3, 5));
    assert_eq!(m.as_str(), "e\u{301}1");
    let old = sample.findOLD(&re).unwrap();
    assert_eq!((old.start, old.end), (3, 5));
    assert_eq!(old.text, m.text);
    assert!(sample.find(&Regex::new("q").unwrap()).is_none());
    assert!(sample.find_iter(&Regex::new("q").unwrap()).is_empty());
}

#[test]
fn match_text_is_rebuilt_from_whole_clusters() {
    let sample = EzStr::new("xe\u{301}y");
    let re = Regex::new("e").unwrap();
    let m = sample.find(&re).unwrap();
    assert_eq!((m.start, m.end), (1, 2));
    assert_eq!(m.as_str(), "e\u{301}");
    assert!(m.is_valid(&sample));
    let t = sample.translate_match(1, 2);
    assert_eq!((t.start, t.end), (1, 2));
    assert_eq!(t.as_str(), "e\u{301}");
}

#[test]
fn translated_matches_are_valid_in_their_source() {
    let sample = EzStr::new("|A|e\u{301}|\u{1F468}\u{200D}\u{1F469}|\n|E|F|G|");
    for pattern in [r"\|", "[A-Z]", ".", r"\|.", "e", ""] {
        let re = Regex::new(pattern).unwrap();
        let matches = sample.find_iter(&re);
        for m in &matches {
            assert!(m.is_valid(&sample), "{:?}", m);
            assert!(m.ensure_is_valid(&sample).is_ok());
        }
        for pair in matches.windows(2) {
            assert!(pair[0].end <= pair[1].start);
        }
        if let Some(m) = sample.find(&re) {
            assert!(m.is_valid(&sample));
        }
    }
}

#[test]
fn is_valid_tells_whether_a_match_fits() {
    let source = EzStr::new("hello world");
    assert!(GraphemeMatch::new(0, 5, EzStr::new("hello")).is_valid(&source));
    assert!(GraphemeMatch::new(6, 11, EzStr::new("world")).is_valid(&source));
    assert!(GraphemeMatch::new(3, 3, EzStr::new("")).is_valid(&source));
    assert!(!GraphemeMatch::new(0, 5, EzStr::new("world")).is_valid(&source));
    assert!(!GraphemeMatch::new(1, 6, EzStr::new("hello")).is_valid(&source));
    assert!(!GraphemeMatch::new(6, 12, EzStr::new("world")).is_valid(&source));
    assert!(!GraphemeMatch::new(5, 3, EzStr::new("")).is_valid(&source));
    assert!(!GraphemeMatch::new(20, 25, EzStr::new("")).is_valid(&source));
}

#[test]
fn match_accessors_return_the_text() {
    let m = GraphemeMatch::new(2, 4, EzStr::new("e\u{301}x"));
    assert_eq!(m.start, 2);
    assert_eq!(m.end, 4);
    assert_eq!(m.as_str(), "e\u{301}x");
    assert_eq!(m.to_ezstr(), EzStr::new("e\u{301}x"));
    assert_eq!(m.clone().text, m.text);
}

#[test]
fn ensure_is_valid_reports_what_was_found() {
    let source = EzStr::new("a|b a|b");
    let m = GraphemeMatch::new(0, 1, EzStr::new("a|b"));
    let report = m.ensure_is_valid(&source).unwrap_err();
    assert_eq!(report.expected, EzStr::new("a|b"));
    assert_eq!(report.found, Some(EzStr::new("a")));
    assert_eq!(report.hits, vec![(0, 3), (4, 7)]);

    let beyond = GraphemeMatch::new(5, 9, EzStr::new("zz"));
    let report = beyond.ensure_is_valid(&source).unwrap_err();
    assert_eq!(report.expected, EzStr::new("zz"));
    assert_eq!(report.found, None);
    assert!(report.hits.is_empty());

    let fits = GraphemeMatch::new(4, 7, EzStr::new("a|b"));
    assert!(fits.ensure_is_valid(&source).is_ok());
}

#[test]
fn diagnose_carries_the_hits_it_is_given() {
    let source = EzStr::new("abc");
    let m = GraphemeMatch::new(2, 1, EzStr::new("c"));
    let report = m.diagnose(&source, vec![(2, 3)]);
    assert_eq!(report.expected, EzStr::new("c"));
    assert_eq!(report.found, Some(EzStr::new("")));
    assert_eq!(report.hits, vec![(2, 3)]);
}

#[test]
fn literal_occurrences_escape_metacharacters() {
    assert_eq!(literal_occurrences("a.c", "abc a.c"), vec![(4, 7)]);
    assert_eq!(literal_occurrences("(x)+", "x (x)+ (x)+"), vec![(2, 6), (7, 11)]);
    assert_eq!(literal_occurrences("\u{e9}", "\u{e9}t\u{e9}"), vec![(0, 2), (3, 5)]);
    assert!(literal_occurrences("q", "abc").is_empty());
}

#[test]
fn caches_are_built_from_the_cluster_table() {
    let table = vec![(0usize, Grapheme::new("a")), (1, Grapheme::new("e\u{301}")), (4, Grapheme::new("z"))];
    let graphemes = ezstr::grapheme::build_graphemes(&table);
    assert_eq!(graphemes, vec![Grapheme::new("a"), Grapheme::new("e\u{301}"), Grapheme::new("z")]);
    let index = ezstr::grapheme::build_byte_index(&table);
    assert_eq!(index, vec![(0, 0), (1, 1), (4, 2)]);
    let s = EzStr::new("ae\u{301}z");
    assert_eq!(s.graphemes(), &graphemes);
    assert_eq!(s.graphemes_byte_index(), &index);
}

#[test]
fn default_string_is_empty() {
    let s = EzStr::default();
    assert_eq!(s, EzStr::new(""));
    assert!(s.is_empty());
    let m = GraphemeMatch::default();
    assert_eq!((m.start, m.end), (0, 0));
    assert!(m.is_valid(&s));
}
