use brainfuck::bracket::{
    find_close_bracket_pointer, find_open_bracket_pointer, get_close_bracket_pointer,
    get_open_bracket_pointer,
};
use brainfuck::error::Error;

fn tokens(src: &str) -> Vec<char> {
    src.chars().collect()
}

#[test]
fn forward_search_finds_the_next_close_bracket() {
    assert_eq!(get_close_bracket_pointer(&tokens("[+-]"), 1), Some(3));
    assert_eq!(find_close_bracket_pointer(&tokens("[+-]"), 1), Ok(3));
}

#[test]
fn forward_search_skips_nested_pairs() {
    //                 0123456789
    let program = tokens("[a[b]c[]d]e]");
    assert_eq!(get_close_bracket_pointer(&program, 1), Some(9));
    assert_eq!(get_close_bracket_pointer(&program, 3), Some(4));
    assert_eq!(get_close_bracket_pointer(&program, 7), Some(7));
    assert_eq!(get_close_bracket_pointer(&program, 10), Some(11));
}

#[test]
fn forward_search_from_a_close_bracket_finds_it() {
    assert_eq!(get_close_bracket_pointer(&tokens("]"), 0), Some(0));
}

#[test]
fn forward_search_without_partner_fails() {
    assert_eq!(get_close_bracket_pointer(&tokens("[[]"), 1), None);
    assert_eq!(
        find_close_bracket_pointer(&tokens("[[]"), 1),
        Err(Error::Jump("corresponding bracket is not found."))
    );
    assert_eq!(get_close_bracket_pointer(&tokens("[+++"), 1), None);
}

#[test]
fn forward_search_from_the_end_or_beyond_fails() {
    assert_eq!(get_close_bracket_pointer(&tokens("[]"), 2), None);
    assert_eq!(get_close_bracket_pointer(&tokens("[]"), 3), None);
    assert_eq!(get_close_bracket_pointer(&tokens(""), 0), None);
    assert_eq!(
        find_close_bracket_pointer(&tokens("[]"), usize::MAX),
        Err(Error::Jump("corresponding bracket is not found."))
    );
}

#[test]
fn backward_search_finds_the_previous_open_bracket() {
    assert_eq!(get_open_bracket_pointer(&tokens("[+-]"), 2), Some(0));
    assert_eq!(find_open_bracket_pointer(&tokens("[+-]"), 2), Ok(0));
}

#[test]
fn backward_search_skips_nested_pairs() {
    //                 0123456789
    let program = tokens("[[a[b]c[]d]");
    assert_eq!(get_open_bracket_pointer(&program, 9), Some(1));
    assert_eq!(get_open_bracket_pointer(&program, 4), Some(3));
    assert_eq!(get_open_bracket_pointer(&program, 7), Some(7));
    assert_eq!(get_open_bracket_pointer(&program, 2), Some(1));
}

#[test]
fn backward_search_without_partner_fails() {
    assert_eq!(get_open_bracket_pointer(&tokens("[]]"), 1), None);
    assert_eq!(
        find_open_bracket_pointer(&tokens("[]]"), 1),
        Err(Error::Jump("corresponding bracket is not found."))
    );
    assert_eq!(get_open_bracket_pointer(&tokens("+++]"), 2), None);
}

#[test]
fn backward_search_from_beyond_the_end_fails() {
    assert_eq!(get_open_bracket_pointer(&tokens("[+"), 2), None);
    assert_eq!(get_open_bracket_pointer(&tokens(""), 0), None);
    assert_eq!(
        find_open_bracket_pointer(&tokens("[+"), usize::MAX),
        Err(Error::Jump("corresponding bracket is not found."))
    );
}

#[test]
fn both_searches_agree_on_the_partners() {
    let program = tokens("+[>[-]<[->+<]]>.");
    for (open, close) in [(1usize, 13usize), (3, 5), (7, 12)] {
        assert_eq!(get_close_bracket_pointer(&program, open + 1), Some(close));
        assert_eq!(get_open_bracket_pointer(&program, close - 1), Some(open));
    }
}

#[test]
fn other_tokens_do_not_count_as_brackets() {
    assert_eq!(get_close_bracket_pointer(&tokens("[(<{🍣}>)]"), 1), Some(8));
    assert_eq!(get_open_bracket_pointer(&tokens("[(<{🍣}>)]"), 7), Some(0));
}
