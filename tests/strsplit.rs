use interesting_rust_codes::strsplit::StrSplit;

fn pieces<'a>(mut it: StrSplit<'a, '_>) -> Vec<&'a str> {
    let mut out = Vec::new();
    while let Some(p) = it.next() {
        out.push(p);
    }
    out
}

#[test]
fn until_char_test() {
    let delim = "c".to_string();
    let haystack = "a b c d e";
    let letters: Vec<_> = pieces(StrSplit::new(haystack, &delim));
    assert_eq!(letters, vec!["a b ", " d e"]);
}

#[test]
fn it_works() {
    let haystack = "a b c d e";
    let letters: Vec<_> = pieces(StrSplit::new(haystack, " "));
    assert_eq!(letters, vec!["a", "b", "c", "d", "e"]);
}

#[test]
fn tail() {
    let haystack = "a b c d ";
    let letters: Vec<_> = pieces(StrSplit::new(haystack, " "));
    assert_eq!(letters, vec!["a", "b", "c", "d", ""]);
}

#[test]
fn absent_delimiter_gives_whole_haystack() {
    let letters = pieces(StrSplit::new("abc", "x"));
    assert_eq!(letters, vec!["abc"]);
}

#[test]
fn longer_delimiter_and_unicode() {
    assert_eq!(pieces(StrSplit::new("aé--bü--", "--")), vec!["aé", "bü", ""]);
    assert_eq!(pieces(StrSplit::new("", ",")), vec![""]);
}

#[test]
fn exhausted_splitter_stays_exhausted() {
    let mut it = StrSplit::new("a,b", ",");
    assert_eq!(it.next(), Some("a"));
    assert_eq!(it.next(), Some("b"));
    assert_eq!(it.next(), None);
    assert_eq!(it.next(), None);
}
