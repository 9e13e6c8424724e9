use websearch::source::link_source;
use websearch::text::chars_of;

#[test]
fn source_drops_scheme_and_www() {
    assert_eq!(link_source("https://www.example.com/page"), "example.com");
}

#[test]
fn source_keeps_subdomain() {
    assert_eq!(link_source("https://sub.example.com/x"), "sub.example.com");
}

#[test]
fn source_of_text_without_slashes_is_empty() {
    assert_eq!(link_source("notaurl"), "");
}

#[test]
fn source_of_empty_link_is_empty() {
    assert_eq!(link_source(""), "");
}

#[test]
fn source_needs_two_slashes() {
    assert_eq!(link_source("example.com/page"), "");
    assert_eq!(link_source("https:/"), "");
    assert_eq!(link_source("/"), "");
}

#[test]
fn source_is_the_third_segment() {
    assert_eq!(link_source("a/b/c/d"), "c");
    assert_eq!(link_source("a/b/c"), "c");
    assert_eq!(link_source("//host"), "host");
}

#[test]
fn source_ends_at_the_next_slash() {
    assert_eq!(link_source("https://example.com"), "example.com");
    assert_eq!(link_source("https://example.com/"), "example.com");
    assert_eq!(link_source("https://example.com/a/b/c"), "example.com");
}

#[test]
fn source_of_empty_third_segment_is_empty() {
    assert_eq!(link_source("a/b/"), "");
    assert_eq!(link_source("https:///path"), "");
    assert_eq!(link_source("//"), "");
}

#[test]
fn source_keeps_port_and_case() {
    assert_eq!(link_source("http://Example.COM:8080/x"), "Example.COM:8080");
}

#[test]
fn source_drops_every_leading_www() {
    assert_eq!(link_source("https://www.www.example.com/"), "example.com");
    assert_eq!(link_source("https://www./"), "");
}

#[test]
fn source_keeps_www_inside_the_host() {
    assert_eq!(link_source("https://awww.example.com/"), "awww.example.com");
    assert_eq!(link_source("https://a.www.example.com/"), "a.www.example.com");
}

#[test]
fn source_keeps_incomplete_www() {
    assert_eq!(link_source("https://www/"), "www");
    assert_eq!(link_source("https://ww.example.com/"), "ww.example.com");
    assert_eq!(link_source("https://wwww.example.com/"), "wwww.example.com");
}

#[test]
fn source_handles_characters_beyond_ascii() {
    assert_eq!(link_source("https://www.münchen.de/rathaus"), "münchen.de");
}

#[test]
fn chars_of_lists_every_character() {
    assert_eq!(chars_of("a/é"), vec!['a', '/', 'é']);
    assert_eq!(chars_of(""), Vec::<char>::new());
}
