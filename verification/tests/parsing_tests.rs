use rmcll::parsing::{parse, tokenize, ParameterStrategy, VariableMap};

fn map_strategy(pairs: &[(&str, &str)]) -> ParameterStrategy {
    let mut vm = VariableMap::new();
    for (k, v) in pairs {
        vm.insert(k.to_string(), v.to_string());
    }
    ParameterStrategy::map(vm)
}

fn toks(input: &str, strategy: &ParameterStrategy) -> Option<Vec<String>> {
    tokenize(input, strategy)
}

#[test]
fn single_quotes_stripped_under_map() {
    let s = map_strategy(&[]);
    assert_eq!(toks("a'b c'd", &s), Some(vec!["ab cd".to_string()]));
}

#[test]
fn single_quotes_kept_under_ignore() {
    let s = ParameterStrategy::ignore();
    assert_eq!(toks("a'b c'd", &s), Some(vec!["a'b c'd".to_string()]));
}

#[test]
fn hello_world_single_token_map() {
    let s = map_strategy(&[]);
    assert_eq!(toks("'hello world'", &s), Some(vec!["hello world".to_string()]));
}

#[test]
fn hello_world_single_token_ignore() {
    let s = ParameterStrategy::ignore();
    assert_eq!(toks("'hello world'", &s), Some(vec!["'hello world'".to_string()]));
}

#[test]
fn braced_reference_resolves() {
    let s = map_strategy(&[("foo", "bar")]);
    assert_eq!(toks("${foo}", &s), Some(vec!["bar".to_string()]));
}

#[test]
fn bare_reference_resolves() {
    let s = map_strategy(&[("foo", "bar")]);
    assert_eq!(toks("$foo", &s), Some(vec!["bar".to_string()]));
}

#[test]
fn bare_dollar_before_space_is_literal() {
    let s = map_strategy(&[]);
    assert_eq!(toks("a$ b", &s), Some(vec!["a$".to_string(), "b".to_string()]));
}

#[test]
fn dollar_kept_verbatim_under_ignore() {
    let s = ParameterStrategy::ignore();
    assert_eq!(toks("$foo ${bar}", &s), Some(vec!["$foo".to_string(), "${bar}".to_string()]));
}

#[test]
fn unknown_name_resolves_empty_ending_the_stream() {
    let s = map_strategy(&[]);
    assert_eq!(toks("${nope} later", &s), Some(vec![]));
}

#[test]
fn shadowing_keeps_the_last_binding() {
    let s = map_strategy(&[("k", "first"), ("k", "second")]);
    assert_eq!(toks("${k}", &s), Some(vec!["second".to_string()]));
}

#[test]
fn unterminated_single_quote_fails() {
    assert_eq!(toks("'abc", &ParameterStrategy::ignore()), None);
    assert_eq!(toks("'abc", &map_strategy(&[])), None);
}

#[test]
fn unterminated_double_quote_fails() {
    assert_eq!(toks("\"abc", &map_strategy(&[])), None);
}

#[test]
fn unterminated_brace_fails_under_map() {
    assert_eq!(toks("${abc", &map_strategy(&[])), None);
}

#[test]
fn unterminated_brace_is_literal_under_ignore() {
    assert_eq!(toks("${abc", &ParameterStrategy::ignore()), Some(vec!["${abc".to_string()]));
}

#[test]
fn trailing_escape_fails() {
    assert_eq!(toks("ab\\", &map_strategy(&[])), None);
}

#[test]
fn escaped_space_joins_token() {
    assert_eq!(toks("a\\ b", &ParameterStrategy::ignore()), Some(vec!["a\\ b".to_string()]));
    assert_eq!(toks("a\\ b", &map_strategy(&[])), Some(vec!["a b".to_string()]));
}

#[test]
fn double_quote_unescapes_quote() {
    let s = map_strategy(&[]);
    assert_eq!(toks("\"a\\\"b\"", &s), Some(vec!["a\"b".to_string()]));
}

#[test]
fn double_quote_keeps_decoration_under_ignore() {
    let s = ParameterStrategy::ignore();
    assert_eq!(toks("\"a\\\"b\"", &s), Some(vec!["\"a\\\"b\"".to_string()]));
}

#[test]
fn double_quote_resolves_inner_reference() {
    let s = map_strategy(&[("foo", "bar")]);
    assert_eq!(toks("\"x ${foo} y\"", &s), Some(vec!["x bar y".to_string()]));
}

#[test]
fn backslash_before_plain_char_kept_in_double_quotes() {
    let s = map_strategy(&[]);
    assert_eq!(toks("\"a\\xb\"", &s), Some(vec!["a\\xb".to_string()]));
}

#[test]
fn whitespace_only_input_yields_no_tokens() {
    assert_eq!(toks("   \t ", &ParameterStrategy::ignore()), Some(vec![]));
}

#[test]
fn iterator_yields_tokens_then_empty() {
    let s = ParameterStrategy::ignore();
    let mut it = parse("one two", &s);
    assert_eq!(it.next(), Some("one".to_string()));
    assert_eq!(it.next(), Some("two".to_string()));
    assert_eq!(it.next(), Some(String::new()));
}

#[test]
fn tokenization_is_restartable() {
    let s = map_strategy(&[("v", "x")]);
    let first = toks("$v 'a b' c", &s);
    let second = toks("$v 'a b' c", &s);
    assert_eq!(first, second);
    assert_eq!(
        first,
        Some(vec!["x".to_string(), "a b".to_string(), "c".to_string()]),
    );
}

#[test]
fn mixed_quoting_inside_one_token() {
    let s = map_strategy(&[("who", "it")]);
    assert_eq!(toks("pre'mid dle'$who", &s), Some(vec!["premid dleit".to_string()]));
}
