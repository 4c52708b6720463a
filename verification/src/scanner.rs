//! Character-to-token scanner. Identifiers are maximal runs of ASCII
//! letters (a run followed by `(` is a function-call name), integer
//! literals are maximal runs of ASCII digits re-rendered canonically (a
//! value beyond the signed 64-bit range becomes "0"), spaces and newlines
//! separate tokens, and each punctuation mark is a token of its own.

use crate::strutil::dec_string_of;
use crate::strutil::dec_val;
use crate::strutil::is_digit_char;
use crate::strutil::parse_decimal;
use crate::strutil::u64_to_dec_string;
use vstd::prelude::*;
use vstd::string::StrSliceExecFns;

verus! {

/// The classification of one token.
#[derive(Debug, PartialEq, Eq, Structural, Clone, Copy)]
pub enum TokenType {
    Variable,
    Terminator,
    Add,
    Subtract,
    Multiply,
    Divide,
    Modulus,
    Exponent,
    EqualSign,
    ParenOpen,
    ParenClose,
    BraceOpen,
    BraceClose,
    Integer,
    FunctionCall,
    Unknown,
}

/// One scanned token: its classification and its text, empty for
/// punctuation.
#[derive(Debug)]
pub struct Token {
    t_type: TokenType,
    t_val: String,
}

impl Clone for Token {
    /// A copy with the same classification and text.
    fn clone(&self) -> (res: Self)
        ensures
            res@ == self@,
    {
        Token { t_type: self.t_type, t_val: self.t_val.clone() }
    }
}

impl View for Token {
    type V = (TokenType, Seq<char>);

    closed spec fn view(&self) -> (TokenType, Seq<char>) {
        (self.t_type, self.t_val@)
    }
}

impl Default for Token {
    /// A token with no classification and no text.
    fn default() -> (t: Token)
        ensures
            t@ == (TokenType::Unknown, Seq::<char>::empty()),
    {
        Token { t_type: TokenType::Unknown, t_val: String::new() }
    }
}

impl Token {
    /// Whether this token has the given classification.
    pub fn is_type(&self, token_type: TokenType) -> (r: bool)
        ensures
            r == (self@.0 == token_type),
    {
        self.t_type == token_type
    }

    /// The token's text.
    pub fn get_val(&self) -> (val: String)
        ensures
            val@ == self@.1,
    {
        self.t_val.clone()
    }

    /// The token's classification.
    pub fn get_type(&self) -> (t: TokenType)
        ensures
            t == self@.0,
    {
        self.t_type
    }
}

/// Whether `c` is an ASCII letter.
pub open spec fn is_alpha_char(c: char) -> bool {
    (97 <= c as u32 <= 122) || (65 <= c as u32 <= 90)
}

fn is_alpha(c: char) -> (r: bool)
    ensures
        r == is_alpha_char(c),
{
    let u = c as u32;
    (97 <= u && u <= 122) || (65 <= u && u <= 90)
}

fn is_digit(c: char) -> (r: bool)
    ensures
        r == is_digit_char(c),
{
    let u = c as u32;
    48 <= u && u <= 57
}

/// The first position at or after `i` that is not an ASCII letter.
pub open spec fn alpha_run_end(s: Seq<char>, i: int) -> int
    decreases s.len() - i,
    when 0 <= i <= s.len()
{
    if i < s.len() && is_alpha_char(s[i]) {
        alpha_run_end(s, i + 1)
    } else {
        i
    }
}

/// The first position at or after `i` that is not an ASCII digit.
pub open spec fn digit_run_end(s: Seq<char>, i: int) -> int
    decreases s.len() - i,
    when 0 <= i <= s.len()
{
    if i < s.len() && is_digit_char(s[i]) {
        digit_run_end(s, i + 1)
    } else {
        i
    }
}

/// An alpha run ends within the string, covers only letters, and stops at
/// the first non-letter.
pub proof fn lemma_alpha_run_end(s: Seq<char>, i: int)
    requires
        0 <= i <= s.len(),
    ensures
        i <= alpha_run_end(s, i) <= s.len(),
        forall|k: int| i <= k < alpha_run_end(s, i) ==> is_alpha_char(#[trigger] s[k]),
        alpha_run_end(s, i) < s.len() ==> !is_alpha_char(s[alpha_run_end(s, i)]),
    decreases s.len() - i,
{
    if i < s.len() && is_alpha_char(s[i]) {
        lemma_alpha_run_end(s, i + 1);
    }
}

/// A digit run ends within the string, covers only digits, and stops at
/// the first non-digit.
pub proof fn lemma_digit_run_end(s: Seq<char>, i: int)
    requires
        0 <= i <= s.len(),
    ensures
        i <= digit_run_end(s, i) <= s.len(),
        forall|k: int| i <= k < digit_run_end(s, i) ==> is_digit_char(#[trigger] s[k]),
        digit_run_end(s, i) < s.len() ==> !is_digit_char(s[digit_run_end(s, i)]),
    decreases s.len() - i,
{
    if i < s.len() && is_digit_char(s[i]) {
        lemma_digit_run_end(s, i + 1);
    }
}

/// The classification of a single punctuation character.
pub open spec fn single_char_token_type(c: char) -> TokenType {
    if c == ';' {
        TokenType::Terminator
    } else if c == '+' {
        TokenType::Add
    } else if c == '-' {
        TokenType::Subtract
    } else if c == '*' {
        TokenType::Multiply
    } else if c == '/' {
        TokenType::Divide
    } else if c == '%' {
        TokenType::Modulus
    } else if c == '^' {
        TokenType::Exponent
    } else if c == '=' {
        TokenType::EqualSign
    } else if c == '(' {
        TokenType::ParenOpen
    } else if c == ')' {
        TokenType::ParenClose
    } else if c == '{' {
        TokenType::BraceOpen
    } else if c == '}' {
        TokenType::BraceClose
    } else {
        TokenType::Unknown
    }
}

/// The canonical text of an integer literal: its value re-rendered in
/// decimal, or "0" when the value exceeds the signed 64-bit range.
pub open spec fn integer_token_text(digits: Seq<char>) -> Seq<char> {
    if dec_val(digits) <= 0x7fffffffffffffff {
        dec_string_of(dec_val(digits))
    } else {
        seq!['0']
    }
}

/// The tokens of `s` from position `i` on.
pub open spec fn spec_scan(s: Seq<char>, i: int) -> Seq<(TokenType, Seq<char>)>
    decreases s.len() - i,
    when 0 <= i <= s.len()
    via spec_scan_decreases
{
    if i >= s.len() {
        Seq::empty()
    } else {
        let c = s[i];
        if is_alpha_char(c) {
            let j = alpha_run_end(s, i + 1);
            let kind = if j < s.len() && s[j] == '(' {
                TokenType::FunctionCall
            } else {
                TokenType::Variable
            };
            seq![(kind, s.subrange(i, j))] + spec_scan(s, j)
        } else if is_digit_char(c) {
            let j = digit_run_end(s, i + 1);
            seq![(TokenType::Integer, integer_token_text(s.subrange(i, j)))] + spec_scan(s, j)
        } else if c == ' ' || c == '\n' {
            spec_scan(s, i + 1)
        } else {
            seq![(single_char_token_type(c), Seq::<char>::empty())] + spec_scan(s, i + 1)
        }
    }
}

#[via_fn]
proof fn spec_scan_decreases(s: Seq<char>, i: int) {
    if 0 <= i < s.len() {
        lemma_alpha_run_end(s, i + 1);
        lemma_digit_run_end(s, i + 1);
    }
}

/// Every integer token the scanner yields is a nonempty digit string whose
/// value fits in a signed 64-bit integer.
pub proof fn lemma_scan_integers_canonical(s: Seq<char>, i: int)
    requires
        0 <= i <= s.len(),
    ensures
        forall|k: int|
            0 <= k < spec_scan(s, i).len() ==> ((#[trigger] spec_scan(s, i)[k]).0
                == TokenType::Integer ==> crate::strutil::is_dec_string(spec_scan(s, i)[k].1)
                && dec_val(spec_scan(s, i)[k].1) <= 0x7fffffffffffffff),
    decreases s.len() - i,
{
    if i >= s.len() {
    } else {
        let c = s[i];
        if is_alpha_char(c) {
            lemma_alpha_run_end(s, i + 1);
            let j = alpha_run_end(s, i + 1);
            lemma_scan_integers_canonical(s, j);
            assert(forall|k: int|
                1 <= k < spec_scan(s, i).len() ==> spec_scan(s, i)[k] == #[trigger] spec_scan(
                    s,
                    j,
                )[k - 1]);
        } else if is_digit_char(c) {
            lemma_digit_run_end(s, i + 1);
            let j = digit_run_end(s, i + 1);
            lemma_scan_integers_canonical(s, j);
            let digits = s.subrange(i, j);
            assert(forall|k: int|
                0 <= k < digits.len() ==> is_digit_char(#[trigger] digits[k]));
            crate::strutil::lemma_dec_val_nonneg(digits);
            if dec_val(digits) <= 0x7fffffffffffffff {
                crate::strutil::lemma_dec_string_of(dec_val(digits));
            } else {
                assert(integer_token_text(digits) == seq!['0']);
                assert(seq!['0'].drop_last() =~= Seq::<char>::empty());
                reveal_with_fuel(dec_val, 2);
                assert(dec_val(seq!['0']) == 0);
            }
            assert(forall|k: int|
                1 <= k < spec_scan(s, i).len() ==> spec_scan(s, i)[k] == #[trigger] spec_scan(
                    s,
                    j,
                )[k - 1]);
        } else if c == ' ' || c == '\n' {
            lemma_scan_integers_canonical(s, i + 1);
        } else {
            lemma_scan_integers_canonical(s, i + 1);
            assert(forall|k: int|
                1 <= k < spec_scan(s, i).len() ==> spec_scan(s, i)[k] == #[trigger] spec_scan(
                    s,
                    i + 1,
                )[k - 1]);
        }
    }
}

fn chars_of(s: &String) -> (r: Vec<char>)
    ensures
        r@ == s@,
{
    let slice = s.as_str();
    let n = slice.unicode_len();
    let mut r: Vec<char> = Vec::new();
    let mut i: usize = 0;
    while i < n
        invariant
            i <= n,
            n == s@.len(),
            slice@ == s@,
            r@ == s@.take(i as int),
        decreases n - i,
    {
        r.push(slice.get_char(i));
        i = i + 1;
        proof {
            assert(r@ =~= s@.take(i as int));
        }
    }
    proof {
        assert(s@.take(n as int) =~= s@);
    }
    r
}

/// Scan a whole program into its token sequence.
pub fn scan(program: String) -> (tokens: Vec<Token>)
    ensures
        tokens@.map_values(|t: Token| t@) == spec_scan(program@, 0),
{
    let ghost s = program@;
    let chars = chars_of(&program);
    let n = chars.len();
    let mut tokens: Vec<Token> = Vec::new();
    let mut i: usize = 0;
    while i < n
        invariant
            i <= n,
            n == s.len(),
            chars@ == s,
            s == program@,
            spec_scan(s, 0) == tokens@.map_values(|t: Token| t@) + spec_scan(s, i as int),
        decreases n - i,
    {
        let ghost tokens_before = tokens@;
        let c = chars[i];
        if is_alpha(c) {
            let mut j = i + 1;
            while j < n && is_alpha(chars[j])
                invariant
                    i + 1 <= j <= n,
                    n == s.len(),
                    chars@ == s,
                    alpha_run_end(s, i as int + 1) == alpha_run_end(s, j as int),
                decreases n - j,
            {
                proof {
                    assert(alpha_run_end(s, j as int) == alpha_run_end(s, j as int + 1));
                }
                j = j + 1;
            }
            proof {
                assert(alpha_run_end(s, j as int) == j);
            }
            let sub_match = if j < n && chars[j] == '(' {
                TokenType::FunctionCall
            } else {
                TokenType::Variable
            };
            let var_string = program.as_str().substring_char(i, j).to_owned();
            let token = Token { t_type: sub_match, t_val: var_string };
            tokens.push(token);
            proof {
                assert(tokens@.map_values(|t: Token| t@) =~= tokens_before.map_values(
                    |t: Token| t@,
                ).push((sub_match, s.subrange(i as int, j as int))));
            }
            i = j;
        } else if is_digit(c) {
            let mut j = i + 1;
            while j < n && is_digit(chars[j])
                invariant
                    i + 1 <= j <= n,
                    n == s.len(),
                    chars@ == s,
                    digit_run_end(s, i as int + 1) == digit_run_end(s, j as int),
                decreases n - j,
            {
                proof {
                    assert(digit_run_end(s, j as int) == digit_run_end(s, j as int + 1));
                }
                j = j + 1;
            }
            proof {
                assert(digit_run_end(s, j as int) == j);
                lemma_digit_run_end(s, i as int + 1);
            }
            let digits = program.as_str().substring_char(i, j);
            proof {
                let sub = s.subrange(i as int, j as int);
                assert forall|k: int| 0 <= k < sub.len() implies crate::strutil::is_digit_char(
                    #[trigger] sub[k],
                ) by {
                    assert(sub[k] == s[i + k]);
                }
                assert(crate::strutil::is_dec_string(digits@));
            }
            let num_val: String = match parse_decimal(digits) {
                Some(v) => {
                    if v <= 9223372036854775807 {
                        u64_to_dec_string(v)
                    } else {
                        proof {
                            reveal_strlit("0");
                        }
                        "0".to_owned()
                    }
                },
                None => {
                    proof {
                        reveal_strlit("0");
                    }
                    "0".to_owned()
                },
            };
            proof {
                assert(num_val@ =~= integer_token_text(s.subrange(i as int, j as int)));
            }
            let token = Token { t_type: TokenType::Integer, t_val: num_val };
            tokens.push(token);
            proof {
                assert(tokens@.map_values(|t: Token| t@) =~= tokens_before.map_values(
                    |t: Token| t@,
                ).push((TokenType::Integer, integer_token_text(s.subrange(i as int, j as int)))));
            }
            i = j;
        } else if c == ' ' || c == '\n' {
            i = i + 1;
        } else {
            let t_type = if c == ';' {
                TokenType::Terminator
            } else if c == '+' {
                TokenType::Add
            } else if c == '-' {
                TokenType::Subtract
            } else if c == '*' {
                TokenType::Multiply
            } else if c == '/' {
                TokenType::Divide
            } else if c == '%' {
                TokenType::Modulus
            } else if c == '^' {
                TokenType::Exponent
            } else if c == '=' {
                TokenType::EqualSign
            } else if c == '(' {
                TokenType::ParenOpen
            } else if c == ')' {
                TokenType::ParenClose
            } else if c == '{' {
                TokenType::BraceOpen
            } else if c == '}' {
                TokenType::BraceClose
            } else {
                TokenType::Unknown
            };
            let token = Token { t_type, t_val: String::new() };
            tokens.push(token);
            proof {
                assert(tokens@.map_values(|t: Token| t@) =~= tokens_before.map_values(
                    |t: Token| t@,
                ).push((single_char_token_type(c), Seq::<char>::empty())));
            }
            i = i + 1;
        }
        proof {
            assert(spec_scan(s, 0) =~= tokens@.map_values(|t: Token| t@) + spec_scan(
                s,
                i as int,
            ));
        }
    }
    tokens
}

} // verus!
