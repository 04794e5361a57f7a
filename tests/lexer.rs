use ag2_lexer::lexer::{LexemeIdx, LexemeSpec, Lexer, LexerError, LexerResult, LexerSpec, PreLexeme};
use ag2_lexer::quote::{is_regex_special, quote_regex};
use ag2_lexer::state::ScanState;
use ag2_lexer::vob::SimpleVob;

fn spec_of(patterns: &[&str], greedy: bool) -> LexerSpec {
    LexerSpec {
        lexemes: patterns
            .iter()
            .enumerate()
            .map(|(i, p)| LexemeSpec { name: format!("l{}", i), rx: p.to_string() })
            .collect(),
        greedy,
    }
}

fn lexer_of(patterns: &[&str], greedy: bool) -> Lexer {
    match Lexer::from(spec_of(patterns, greedy)) {
        Ok(l) => l,
        Err(e) => panic!("lexer not built: {:?}", e),
    }
}

fn all_of(lex: &Lexer) -> SimpleVob {
    lex.vobset().full_set()
}

fn only(n: usize, idx: usize) -> SimpleVob {
    let mut v = SimpleVob::new_empty(n);
    v.set(idx, true);
    v
}

fn expect_state(r: LexerResult, byte: u8) -> ScanState {
    match r {
        LexerResult::State(s, b) => {
            assert_eq!(b, byte);
            s
        }
        other => panic!("expected a state, got {:?}", other),
    }
}

fn expect_lexeme(r: LexerResult) -> PreLexeme {
    match r {
        LexerResult::Lexeme(p) => p,
        other => panic!("expected a lexeme, got {:?}", other),
    }
}

#[test]
fn greedy_longest_match_wins_over_keyword() {
    let mut lex = lexer_of(&["while", "[a-z]+"], true);
    let allowed = all_of(&lex);
    let mut s = lex.start_state(&allowed, None);
    for &b in b"whilex" {
        s = expect_state(lex.advance(&s, b, false), b);
    }
    let p = expect_lexeme(lex.advance(&s, b' ', false));
    assert_eq!(p, PreLexeme { idx: LexemeIdx(1), byte: Some(b' '), hidden_len: 0 });
}

#[test]
fn greedy_keyword_wins_on_exact_text() {
    let mut lex = lexer_of(&["while", "[a-z]+"], true);
    let allowed = all_of(&lex);
    let mut s = lex.start_state(&allowed, None);
    for &b in b"while" {
        s = expect_state(lex.advance(&s, b, false), b);
    }
    let p = expect_lexeme(lex.advance(&s, b';', false));
    assert_eq!(p, PreLexeme { idx: LexemeIdx(0), byte: Some(b';'), hidden_len: 0 });
}

#[test]
fn greedy_dead_from_non_accepting_is_error() {
    let mut lex = lexer_of(&["abc"], true);
    let allowed = all_of(&lex);
    let s = lex.start_state(&allowed, None);
    let s = expect_state(lex.advance(&s, b'a', false), b'a');
    let r = lex.advance(&s, b'x', false);
    assert!(r.is_error());
}

#[test]
fn non_greedy_takes_shortest_match() {
    let mut lex = lexer_of(&["a+"], false);
    let allowed = all_of(&lex);
    let s = lex.start_state(&allowed, None);
    let p = expect_lexeme(lex.advance(&s, b'a', false));
    assert_eq!(p, PreLexeme { idx: LexemeIdx(0), byte: Some(b'a'), hidden_len: 0 });
}

#[test]
fn non_greedy_dead_is_error() {
    let mut lex = lexer_of(&["ab"], false);
    let allowed = all_of(&lex);
    let s = lex.start_state(&allowed, None);
    let s = expect_state(lex.advance(&s, b'a', false), b'a');
    assert!(lex.advance(&s, b'c', false).is_error());
}

#[test]
fn non_greedy_priority_lowest_index() {
    let mut lex = lexer_of(&["[a-z]", "a"], false);
    let allowed = all_of(&lex);
    let s = lex.start_state(&allowed, None);
    let p = expect_lexeme(lex.advance(&s, b'a', true));
    assert_eq!(p.idx, LexemeIdx(0));
}

#[test]
fn advance_is_deterministic() {
    let mut lex = lexer_of(&["while", "[a-z]+"], true);
    let allowed = all_of(&lex);
    let s = lex.start_state(&allowed, Some(b'w'));
    let a = lex.advance(&s, b'h', false);
    let b = lex.advance(&s, b'h', false);
    let (sa, sb) = (expect_state(a, b'h'), expect_state(b, b'h'));
    let pa = expect_lexeme(lex.advance(&sa, b' ', false));
    let pb = expect_lexeme(lex.advance(&sb, b' ', false));
    assert_eq!(pa, pb);
    assert_eq!(pa.idx, LexemeIdx(1));
}

#[test]
fn start_state_with_first_byte() {
    let mut lex = lexer_of(&["ab"], true);
    let allowed = all_of(&lex);
    let s = lex.start_state(&allowed, Some(b'a'));
    let s = expect_state(lex.advance(&s, b'b', false), b'b');
    let p = expect_lexeme(lex.advance(&s, b'b', false));
    assert_eq!(p, PreLexeme { idx: LexemeIdx(0), byte: Some(b'b'), hidden_len: 0 });
}

#[test]
fn disallowed_lexemes_do_not_match() {
    let mut lex = lexer_of(&["while", "[a-z]+"], true);
    let s = lex.start_state(&only(2, 1), None);
    let mut s = s;
    for &b in b"while" {
        s = expect_state(lex.advance(&s, b, false), b);
    }
    let p = expect_lexeme(lex.advance(&s, b' ', false));
    assert_eq!(p.idx, LexemeIdx(1));
}

#[test]
fn nothing_allowed_is_dead() {
    let mut lex = lexer_of(&["a"], true);
    let s = lex.start_state(&SimpleVob::new_empty(1), None);
    assert!(s.is_dead());
    assert!(lex.advance(&s, b'a', false).is_error());
}

#[test]
fn force_lexeme_end_takes_only_possible() {
    let mut lex = lexer_of(&["a", "b", "c", "d+"], true);
    let s = lex.start_state(&only(4, 3), None);
    match lex.force_lexeme_end(&s) {
        LexerResult::Lexeme(p) => {
            assert_eq!(p, PreLexeme { idx: LexemeIdx(3), byte: None, hidden_len: 0 })
        }
        other => panic!("expected a lexeme, got {:?}", other),
    }
}

#[test]
fn force_lexeme_end_takes_lowest_possible() {
    let mut lex = lexer_of(&["x", "ab", "a+"], true);
    let allowed = all_of(&lex);
    let s = lex.start_state(&allowed, Some(b'a'));
    let p = expect_lexeme(lex.force_lexeme_end(&s));
    assert_eq!(p, PreLexeme { idx: LexemeIdx(1), byte: None, hidden_len: 0 });
}

#[test]
fn allows_eos_false_on_empty_set() {
    let mut lex = lexer_of(&["abc\\x02-EoS", "[a-z]+"], true);
    let allowed = all_of(&lex);
    let mut s = lex.start_state(&allowed, None);
    for &b in b"abc" {
        s = expect_state(lex.advance(&s, b, false), b);
    }
    assert!(!lex.allows_eos(&s, &SimpleVob::new_empty(2)));
    let dead = lex.a_dead_state();
    assert!(!lex.allows_eos(&dead, &SimpleVob::new_empty(2)));
}

#[test]
fn allows_eos_when_marker_completes_allowed_lexeme() {
    let mut lex = lexer_of(&["abc\\x02-EoS", "[a-z]+"], true);
    let allowed = all_of(&lex);
    let mut s = lex.start_state(&allowed, None);
    for &b in b"abc" {
        s = expect_state(lex.advance(&s, b, false), b);
    }
    assert!(lex.allows_eos(&s, &only(2, 0)));
    assert!(!lex.allows_eos(&s, &only(2, 1)));
}

#[test]
fn dead_state_has_no_hidden_len() {
    let lex = lexer_of(&["a", "b"], true);
    let d = lex.a_dead_state();
    assert!(d.is_dead());
    assert_eq!(d.len(), 2);
    assert_eq!(lex.possible_hidden_len(&d), 0);
}

#[test]
fn hidden_len_from_lookahead() {
    let mut lex = lexer_of(&["a(?P<stop>bc)"], true);
    let allowed = all_of(&lex);
    let mut s = lex.start_state(&allowed, None);
    for &b in b"abc" {
        s = expect_state(lex.advance(&s, b, false), b);
    }
    let h = lex.possible_hidden_len(&s);
    let p = expect_lexeme(lex.advance(&s, b'z', false));
    assert_eq!(p.idx, LexemeIdx(0));
    assert_eq!(p.hidden_len, h);
}

#[test]
fn invalid_pattern_is_reported() {
    match Lexer::from(spec_of(&["a", "(b"], true)) {
        Err(e) => assert_eq!(e, LexerError::InvalidPattern(1)),
        Ok(_) => panic!("an invalid pattern was taken"),
    }
}

#[test]
fn lexer_result_is_error() {
    assert!(LexerResult::Error.is_error());
    let p = PreLexeme { idx: LexemeIdx(0), byte: None, hidden_len: 0 };
    assert!(!LexerResult::Lexeme(p).is_error());
}

#[test]
fn quote_regex_escapes_specials() {
    assert_eq!(quote_regex("a.b*c"), "a\\.b\\*c");
    assert_eq!(quote_regex(""), "");
    assert_eq!(quote_regex("(x|y)"), "\\(x\\|y\\)");
    assert_eq!(quote_regex("plain"), "plain");
}

#[test]
fn quoted_text_matches_itself() {
    let q = quote_regex("a+b");
    let mut lex = lexer_of(&[q.as_str()], true);
    let allowed = all_of(&lex);
    let mut s = lex.start_state(&allowed, None);
    for &b in b"a+b" {
        s = expect_state(lex.advance(&s, b, false), b);
    }
    let p = expect_lexeme(lex.advance(&s, b' ', false));
    assert_eq!(p.idx, LexemeIdx(0));
}

#[test]
fn regex_special_chars() {
    for c in "\\+*?^$()[]{}.|".chars() {
        assert!(is_regex_special(c));
    }
    for c in "abc-_ 09".chars() {
        assert!(!is_regex_special(c));
    }
}

#[test]
fn simple_vob_operations() {
    let mut a = SimpleVob::new_empty(5);
    assert!(a.is_zero());
    assert_eq!(a.first_bit_set(), None);
    a.set(3, true);
    a.set(1, true);
    assert!(!a.is_zero());
    assert_eq!(a.first_bit_set(), Some(1));
    let mut b = SimpleVob::new_empty(5);
    b.set(2, true);
    assert!(a.and_is_zero(&b));
    b.set(3, true);
    assert!(!a.and_is_zero(&b));
    assert!(a.is_allowed(3));
    assert!(!a.is_allowed(0));
    assert_eq!(a.len(), 5);
}

#[test]
fn vobset_sizes_sets_to_lexemes() {
    let lex = lexer_of(&["a", "b", "c"], true);
    let v = lex.vobset();
    assert_eq!(v.size(), 3);
    assert!(v.empty_set().is_zero());
    assert_eq!(v.full_set().first_bit_set(), Some(0));
}
