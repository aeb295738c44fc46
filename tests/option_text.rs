use thunder::options::{parse_option_text, Args};
use thunder::text::{clean_doc_chars, trim_chars, unquote_chars};

fn chars(s: &str) -> Vec<char> {
    s.chars().collect()
}

fn entries(text: &str) -> Vec<(String, String, String)> {
    parse_option_text(&chars(text))
        .into_iter()
        .map(|e| {
            (
                e.name.into_iter().collect(),
                e.ty.into_iter().collect(),
                e.about.into_iter().collect(),
            )
        })
        .collect()
}

fn triple(a: &str, b: &str, c: &str) -> (String, String, String) {
    (a.to_string(), b.to_string(), c.to_string())
}

#[test]
fn empty_option_text_has_no_entries() {
    assert!(entries("").is_empty());
}

#[test]
fn one_entry_is_read() {
    assert_eq!(entries("level:u32:\"verbosity\""), vec![triple("level", "u32", "verbosity")]);
}

#[test]
fn token_spacing_is_trimmed() {
    let got = entries(
        "arg1 : u32 : \"A small description\" , arg2 : Option < bool > : \"Optional global\"",
    );
    assert_eq!(
        got,
        vec![
            triple("arg1", "u32", "A small description"),
            triple("arg2", "Option < bool >", "Optional global"),
        ]
    );
}

#[test]
fn description_keeps_commas_and_colons() {
    let got = entries("a:u32:\"x, y: z\",b:String:\"p:q,r\"");
    assert_eq!(got, vec![triple("a", "u32", "x, y: z"), triple("b", "String", "p:q,r")]);
}

#[test]
fn description_keeps_inner_whitespace() {
    let got = entries("tag:Option<String>:\"  build tag \"");
    assert_eq!(got, vec![triple("tag", "Option<String>", "  build tag ")]);
}

#[test]
fn incomplete_trailing_entry_is_dropped() {
    let got = entries("a:u32:\"one\",b:u8");
    assert_eq!(got, vec![triple("a", "u32", "one")]);
}

#[test]
fn three_entries_in_order() {
    let got = entries("x:u8:\"first\",y:u16:\"second\",z:u32:\"third\"");
    assert_eq!(
        got,
        vec![triple("x", "u8", "first"), triple("y", "u16", "second"), triple("z", "u32", "third")]
    );
}

#[test]
fn args_start_empty() {
    let a = Args::new();
    assert!(a.args.is_empty());
    assert!(!a.last_field);
    assert!(a.string.is_empty());
}

#[test]
fn args_push_trims_and_drops_separator() {
    let mut a = Args::new();
    a.string = chars("  , name ");
    a.push();
    assert_eq!(a.args, vec![chars("name")]);
    assert_eq!(a.string, chars(" name"));
}

#[test]
fn args_feed_closes_fields() {
    let mut a = Args::new();
    for c in "n:t:\"d: e\"".chars() {
        a.feed(c);
    }
    assert_eq!(a.args, vec![chars("n"), chars("t"), chars("\"d: e\"")]);
    assert!(!a.last_field);
    assert!(a.string.is_empty());
}

#[test]
fn args_collect_groups_by_three() {
    let mut a = Args::new();
    for f in ["a", "b", "c", "d", "e", "f", "g"] {
        a.string = chars(f);
        a.push();
    }
    let got = a.collect();
    assert_eq!(
        got,
        vec![(chars("a"), chars("b"), chars("c")), (chars("d"), chars("e"), chars("f"))]
    );
}

#[test]
fn trim_removes_unicode_whitespace() {
    assert_eq!(trim_chars(&chars("\u{3000}\t ab c \n\u{a0}")), chars("ab c"));
    assert_eq!(trim_chars(&chars("   ")), chars(""));
}

#[test]
fn unquote_removes_every_quote() {
    assert_eq!(unquote_chars(&chars("\"a\"b\"")), chars("ab"));
}

#[test]
fn doc_text_is_cleaned() {
    assert_eq!(clean_doc_chars(&chars("= \" Say hello to someone\"")), chars("Say hello to someone"));
    assert_eq!(clean_doc_chars(&chars("/// An app = good\\")), chars("An app  good"));
}
