//! Lexer behaviour: token streams of whole programs, and the single
//! token parsers.

use kotlite::lexer::token::{parse_char, parse_int, parse_str, Token};
use kotlite::lexer::tokenize;

const HELLO_KT: &str = "fun main() {\n    println(\"Hello, World!\")\n}\n";

const ARRAYS_KT: &str = "fun main() {\n    var numbers = arrayOf(1, 2, 3, 4)\n    var total = 0\n    for (n in numbers) {\n        total = total + n\n    }\n    println(\"total: \" + total)\n}\n";

const FACTORIAL_KT: &str = "fun factorial(n: Int): Int {\n    if (n < 2) {\n        return 1\n    }\n    return n * factorial(n - 1)\n}\n\nfun main() {\n    println(factorial(10))\n}\n";

const SORT_KT: &str = "fun sort(values: Array<Int>) {\n    val count = 4\n    var i = 0\n    while (i < count) {\n        var j = 0\n        while (j < (count - 1)) {\n            if (values[j + 1] < values[j]) {\n                val tmp = values[j]\n                values[j] = values[j + 1]\n                values[j + 1] = tmp\n            }\n            j = j + 1\n        }\n        i = i + 1\n    }\n}\n\nfun main() {\n    var values = arrayOf(3, 1, 4, 2)\n    sort(values)\n    var text = \"\"\n    for (v in values) {\n        text = text + v + \" \"\n    }\n    println(text)\n}\n";

fn token_list(source: &str) -> Vec<Token> {
    let bytes = source.as_bytes().to_vec();
    tokenize(&bytes).iter().map(|p| p.token).collect()
}

#[test]
fn hello() {
    let source = r#"
        fun main() {
            println("Hello, World!")
        }
        "#;

    let tokens = token_list(source);

    assert_eq!(
        &tokens[..],
        [
            Token::NewLine,
            Token::Fun,
            Token::Ident,
            Token::Symbol(b'('),
            Token::Symbol(b')'),
            Token::Symbol(b'{'),
            Token::NewLine,
            Token::Ident,
            Token::Symbol(b'('),
            Token::Str,
            Token::Symbol(b')'),
            Token::NewLine,
            Token::Symbol(b'}'),
            Token::NewLine,
        ]
    );
}

#[test]
fn samples() {
    fn all_expected(source: &str) -> bool {
        token_list(source).iter().all(|t| *t != Token::Unexpected)
    }

    assert!(all_expected(HELLO_KT));
    assert!(all_expected(ARRAYS_KT));
    assert!(all_expected(FACTORIAL_KT));
}

#[test]
fn sort_sample_lexes() {
    assert!(token_list(SORT_KT).iter().all(|t| *t != Token::Unexpected));
}

#[test]
fn string() {
    let s = br#""Hello, world""#;
    assert_eq!(parse_str(s, 0), Some((Token::Str, s.len())));

    let s = br#""Hello, world"+=8"#;
    assert_eq!(parse_str(s, 0), Some((Token::Str, s.len() - 3)));

    let s = br#""Hello, world\n""#;
    assert_eq!(parse_str(s, 0), Some((Token::Str, s.len())));

    let s = br#""\lol""#;
    assert_eq!(parse_str(s, 0), Some((Token::Unexpected, s.len())));
}

#[test]
fn char() {
    assert_eq!(parse_char(b"'a'", 0), Some((Token::Char, 3)));
    assert_eq!(parse_char(b"'\\t'", 0), Some((Token::Char, 4)));
    assert_eq!(parse_char(b"'\\l'", 0), None);
}

#[test]
fn int_token() {
    assert_eq!(parse_int(b"42", 0), Some((Token::Int(42), 2)));
    assert_eq!(parse_int(b"0xfd2", 0), Some((Token::Int(0xfd2), 5)));
    assert_eq!(parse_int(b"0b10011", 0), Some((Token::Int(0b10011), 7)));
    assert_eq!(parse_int(b"hello", 0), None);
}

#[test]
fn int_overflow_is_unexpected() {
    let s = b"99999999999";
    assert_eq!(parse_int(s, 0), Some((Token::Unexpected, s.len())));
}

#[test]
fn int_trailing_letters_are_unexpected() {
    let s = b"123zzz";
    assert_eq!(parse_int(s, 0), Some((Token::Unexpected, s.len())));
}

#[test]
fn comments_fold_away() {
    let tokens = token_list("1 /* gone */ 2 // note\n3");
    assert_eq!(
        &tokens[..],
        [Token::Int(1), Token::Int(2), Token::NewLine, Token::Int(3)]
    );
}

#[test]
fn unexpected_run_folds() {
    let tokens = token_list("@@@ x");
    assert_eq!(&tokens[..], [Token::Unexpected, Token::Ident]);
}

#[test]
fn unterminated_string_is_unexpected() {
    let tokens = token_list("\"abc");
    assert_eq!(&tokens[..], [Token::Unexpected]);
}

#[test]
fn spans_cover_tokens() {
    let bytes = b"val x = 12".to_vec();
    let pairs = tokenize(&bytes);
    assert_eq!(pairs.len(), 4);
    assert_eq!((pairs[0].span.lo, pairs[0].span.hi), (0, 3));
    assert_eq!((pairs[1].span.lo, pairs[1].span.hi), (4, 5));
    assert_eq!((pairs[2].span.lo, pairs[2].span.hi), (6, 7));
    assert_eq!((pairs[3].span.lo, pairs[3].span.hi), (8, 10));
    assert_eq!(pairs[3].token, Token::Int(12));
    assert_eq!(pairs[0].str(&bytes), b"val".to_vec());
}

#[test]
fn lexer_cursor_yields_the_stream() {
    let bytes = b"val x = 1".to_vec();
    let mut lexer = kotlite::lexer::Lexer::new(&bytes);
    let mut seen = Vec::new();
    while let Some(p) = lexer.next() {
        seen.push(p);
    }
    assert_eq!(seen, tokenize(&bytes));
}
