use vstd::prelude::*;
use vstd::std_specs::iter::IteratorSpec;

verus! {

/// The kind of a lexical token.
#[derive(Debug, Clone, Copy, PartialEq, Eq, Structural)]
pub enum TokenTypes {
    NUMBER,
    STRING,
    ASSIGN,
    LINEBREAK,
    OP,
    WHITESPACE,
    LPAREN,
    RPAREN,
    COMMA,
}

/// A run of characters of one class.
#[derive(Debug)]
pub struct Token {
    pub value: String,
    pub token_type: TokenTypes,
}

/// A character that no token class accepts, at a character index of the source.
#[derive(Debug, Clone, Copy, PartialEq, Eq, Structural)]
pub struct TokenizeError {
    pub index: usize,
}

/// Whether a regular expression compiles.
pub uninterp spec fn regex_compiles(pattern: Seq<char>) -> bool;

/// Whether a regular expression matches somewhere in a text.
pub uninterp spec fn regex_finds(pattern: Seq<char>, text: Seq<char>) -> bool;

/// Relies on regex::Regex::new and regex::Regex::is_match: the pattern compiles or
/// not depending on its text alone, and a compiled pattern matches a text or not
/// depending on the two texts alone.
#[verifier::external_body]
fn regex_is_match(pattern: &str, text: &str) -> (r: Option<bool>)
    ensures
        r.is_some() == regex_compiles(pattern@),
        r.is_some() ==> r.unwrap() == regex_finds(pattern@, text@),
{
    match regex::Regex::new(pattern) {
        Ok(re) => Some(re.is_match(text)),
        Err(_) => None,
    }
}

/// The characters of a string, in order.
pub(crate) fn chars_of(s: &str) -> (r: Vec<char>)
    ensures
        r@ == s@,
{
    broadcast use vstd::string::axiom_spec_iter, vstd::string::next_postcondition;

    let mut it = s.chars();
    let mut v: Vec<char> = Vec::new();
    loop
        invariant
            v@ + it.remaining() == s@,
            it.obeys_prophetic_iter_laws(),
            it.decrease() is Some,
        ensures
            v@ == s@,
        decreases it.decrease()->0,
    {
        match it.next() {
            Some(c) => {
                v.push(c);
                assert(v@ + it.remaining() =~= s@);
            },
            None => {
                assert(v@ =~= s@);
                break;
            },
        }
    }
    v
}

/// Relies on String::push: appends one character.
#[verifier::external_body]
fn push_char(s: &mut String, c: char)
    ensures
        final(s)@ == old(s)@.push(c),
{
    s.push(c)
}

/// The one-character string.
fn char_text(c: char) -> (r: String)
    ensures
        r@ == seq![c],
{
    let mut s = String::new();
    push_char(&mut s, c);
    proof {
        assert(s@ =~= seq![c]);
    }
    s
}

/// A decimal digit in the sense of Unicode regular expressions.
pub open spec fn is_digit_char(c: char) -> bool {
    regex_compiles("\\d"@) && regex_finds("\\d"@, seq![c])
}

/// A word character in the sense of Unicode regular expressions.
pub open spec fn is_word_char(c: char) -> bool {
    regex_compiles("\\w"@) && regex_finds("\\w"@, seq![c])
}

pub open spec fn is_op_char(c: char) -> bool {
    c == '+' || c == '-' || c == '*' || c == '/'
}

/// The class of a character, by fixed precedence, given whether it is a decimal
/// digit and whether it is a word character; `None` for a character that belongs
/// to no class.
pub open spec fn class_with(c: char, digit: bool, word: bool) -> Option<TokenTypes> {
    if digit {
        Some(TokenTypes::NUMBER)
    } else if c == '=' {
        Some(TokenTypes::ASSIGN)
    } else if is_op_char(c) {
        Some(TokenTypes::OP)
    } else if c == '\n' {
        Some(TokenTypes::LINEBREAK)
    } else if word {
        Some(TokenTypes::STRING)
    } else if c == ' ' {
        Some(TokenTypes::WHITESPACE)
    } else if c == '(' {
        Some(TokenTypes::LPAREN)
    } else if c == ')' {
        Some(TokenTypes::RPAREN)
    } else if c == ',' {
        Some(TokenTypes::COMMA)
    } else {
        None
    }
}

/// The class of a character.
pub open spec fn char_class(c: char) -> Option<TokenTypes> {
    class_with(c, is_digit_char(c), is_word_char(c))
}

/// The class of `c`, given whether it is a decimal digit and whether it is a word
/// character.
pub fn class_of(c: char, digit: bool, word: bool) -> (r: Option<TokenTypes>)
    ensures
        r == class_with(c, digit, word),
{
    if digit {
        Some(TokenTypes::NUMBER)
    } else if c == '=' {
        Some(TokenTypes::ASSIGN)
    } else if c == '+' || c == '-' || c == '*' || c == '/' {
        Some(TokenTypes::OP)
    } else if c == '\n' {
        Some(TokenTypes::LINEBREAK)
    } else if word {
        Some(TokenTypes::STRING)
    } else if c == ' ' {
        Some(TokenTypes::WHITESPACE)
    } else if c == '(' {
        Some(TokenTypes::LPAREN)
    } else if c == ')' {
        Some(TokenTypes::RPAREN)
    } else if c == ',' {
        Some(TokenTypes::COMMA)
    } else {
        None
    }
}

/// The token values of a sequence, concatenated in order.
pub open spec fn joined(ts: Seq<Token>) -> Seq<char>
    decreases ts.len(),
{
    if ts.len() == 0 {
        Seq::empty()
    } else {
        joined(ts.drop_last()) + ts.last().value@
    }
}

/// Each token is a nonempty run of characters of its own class, and two
/// neighbouring tokens differ in class: the runs are maximal.
pub open spec fn maximal_runs(ts: Seq<Token>) -> bool {
    &&& forall|i: int|
        0 <= i < ts.len() ==> #[trigger] ts[i].value@.len() > 0
    &&& forall|i: int, j: int|
        0 <= i < ts.len() && 0 <= j < ts[i].value@.len() ==> char_class(
            #[trigger] ts[i].value@[j],
        ) == Some(ts[i].token_type)
    &&& forall|i: int| 0 < i < ts.len() ==> #[trigger] ts[i].token_type != ts[i - 1].token_type
}

/// `ts` is the tokenization of `s`.
pub open spec fn lexes_to(s: Seq<char>, ts: Seq<Token>) -> bool {
    joined(ts) == s && maximal_runs(ts)
}

/// Every character of `s` belongs to a class.
pub open spec fn lexable(s: Seq<char>) -> bool {
    forall|i: int| 0 <= i < s.len() ==> (#[trigger] char_class(s[i])).is_some()
}

/// `k` is the first position of `s` whose character belongs to no class.
pub open spec fn first_unlexable(s: Seq<char>, k: int) -> bool {
    &&& 0 <= k < s.len()
    &&& char_class(s[k]).is_none()
    &&& forall|i: int| 0 <= i < k ==> (#[trigger] char_class(s[i])).is_some()
}

proof fn lemma_joined_push(ts: Seq<Token>, t: Token)
    ensures
        joined(ts.push(t)) == joined(ts) + t.value@,
{
    assert(ts.push(t).drop_last() =~= ts);
}

/// Splits source text into tokens of one character class each.
pub struct Tokenizer {
    index: usize,
    file_content: Vec<char>,
    tokens: Vec<Token>,
}

impl Tokenizer {
    /// The source text, as characters.
    pub closed spec fn content(&self) -> Seq<char> {
        self.file_content@
    }

    /// How many characters of the source have been consumed.
    pub closed spec fn position(&self) -> int {
        self.index as int
    }

    /// The tokens produced so far.
    pub closed spec fn token_seq(&self) -> Seq<Token> {
        self.tokens@
    }

    pub closed spec fn wf(&self) -> bool {
        self.index <= self.file_content@.len()
    }

    pub fn new_empty() -> (r: Tokenizer)
        ensures
            r.wf(),
            r.content().len() == 0,
            r.position() == 0,
            r.token_seq().len() == 0,
    {
        Tokenizer { index: 0, file_content: Vec::new(), tokens: Vec::new() }
    }

    pub fn new_from_stream(inp: String) -> (r: Tokenizer)
        ensures
            r.wf(),
            r.content() == inp@,
            r.position() == 0,
            r.token_seq().len() == 0,
    {
        Tokenizer { index: 0, file_content: chars_of(inp.as_str()), tokens: Vec::new() }
    }

    fn get_current(&self) -> (r: char)
        requires
            self.index < self.file_content@.len(),
        ensures
            r == self.file_content@[self.index as int],
    {
        self.file_content[self.index]
    }

    fn is_number(&self) -> (r: bool)
        requires
            self.index < self.file_content@.len(),
        ensures
            r == is_digit_char(self.file_content@[self.index as int]),
    {
        let text = char_text(self.get_current());
        match regex_is_match("\\d", text.as_str()) {
            Some(b) => b,
            None => false,
        }
    }

    fn is_string(&self) -> (r: bool)
        requires
            self.index < self.file_content@.len(),
        ensures
            r == is_word_char(self.file_content@[self.index as int]),
    {
        let text = char_text(self.get_current());
        match regex_is_match("\\w", text.as_str()) {
            Some(b) => b,
            None => false,
        }
    }

    /// The class of the current character.
    fn check_type(&self) -> (r: Option<TokenTypes>)
        requires
            self.index < self.file_content@.len(),
        ensures
            r == char_class(self.file_content@[self.index as int]),
    {
        let c = self.get_current();
        class_of(c, self.is_number(), self.is_string())
    }

    /// Takes the longest run of characters of the current character's class.
    fn concat(&mut self) -> (r: Result<Token, TokenizeError>)
        requires
            old(self).wf(),
            old(self).index < old(self).file_content@.len(),
        ensures
            final(self).wf(),
            final(self).file_content@ == old(self).file_content@,
            final(self).tokens@ == old(self).tokens@,
            match r {
                Ok(tok) => {
                    &&& old(self).index < final(self).index
                    &&& tok.value@ == final(self).file_content@.subrange(
                        old(self).index as int,
                        final(self).index as int,
                    )
                    &&& forall|j: int|
                        old(self).index <= j < final(self).index ==> char_class(
                            #[trigger] final(self).file_content@[j],
                        ) == Some(tok.token_type)
                    &&& (final(self).index == final(self).file_content@.len() || char_class(
                        final(self).file_content@[final(self).index as int],
                    ) != Some(tok.token_type))
                },
                Err(e) => {
                    &&& e.index == old(self).index
                    &&& char_class(old(self).file_content@[old(self).index as int]).is_none()
                    &&& final(self).index == old(self).index
                },
            },
    {
        let current_type = match self.check_type() {
            Some(t) => t,
            None => {
                return Err(TokenizeError { index: self.index });
            },
        };
        let ghost start = self.index as int;
        let mut res: String = String::new();
        let n = self.file_content.len();
        loop
            invariant
                self.wf(),
                start <= self.index,
                self.file_content@ == old(self).file_content@,
                self.tokens@ == old(self).tokens@,
                start == old(self).index,
                res@ == self.file_content@.subrange(start, self.index as int),
                forall|j: int|
                    start <= j < self.index ==> char_class(#[trigger] self.file_content@[j])
                        == Some(current_type),
                start == self.index ==> (self.index < self.file_content@.len() && char_class(
                    self.file_content@[self.index as int],
                ) == Some(current_type)),
                n == self.file_content@.len(),
            ensures
                start < self.index,
                res@ == self.file_content@.subrange(start, self.index as int),
                forall|j: int|
                    start <= j < self.index ==> char_class(#[trigger] self.file_content@[j])
                        == Some(current_type),
                self.index == self.file_content@.len() || char_class(
                    self.file_content@[self.index as int],
                ) != Some(current_type),
            decreases self.file_content@.len() - self.index,
        {
            if self.is_eos() {
                break;
            }
            if self.check_type() != Some(current_type) {
                break;
            }
            let c = self.get_current();
            push_char(&mut res, c);
            self.index = self.index + 1;
            assert(res@ =~= self.file_content@.subrange(start, self.index as int));
        }
        Ok(Token { value: res, token_type: current_type })
    }

    /// Splits the rest of the source into tokens and appends them; on a character
    /// that belongs to no class, reports its index and appends nothing.
    pub fn tokenize(&mut self) -> (r: Result<(), TokenizeError>)
        requires
            old(self).wf(),
        ensures
            final(self).wf(),
            final(self).content() == old(self).content(),
            ({
                let rest = old(self).content().subrange(old(self).position(), old(self).content().len() as int);
                match r {
                    Ok(()) => {
                        &&& lexable(rest)
                        &&& final(self).position() == final(self).content().len()
                        &&& old(self).token_seq().is_prefix_of(final(self).token_seq())
                        &&& lexes_to(rest, final(self).token_seq().subrange(
                            old(self).token_seq().len() as int,
                            final(self).token_seq().len() as int,
                        ))
                    },
                    Err(e) => {
                        &&& first_unlexable(rest, e.index - old(self).position())
                        &&& final(self).token_seq() == old(self).token_seq()
                    },
                }
            }),
    {
        let ghost start = self.index as int;
        let ghost s = self.file_content@;
        let mut found: Vec<Token> = Vec::new();
        while !self.is_eos()
            invariant
                self.wf(),
                start <= self.index,
                start == old(self).index,
                self.file_content@ == s,
                s == old(self).file_content@,
                self.tokens@ == old(self).tokens@,
                joined(found@) == s.subrange(start, self.index as int),
                maximal_runs(found@),
                forall|j: int| start <= j < self.index ==> (#[trigger] char_class(s[j])).is_some(),
                found@.len() > 0 ==> (self.index == s.len() || char_class(s[self.index as int])
                    != Some(found@.last().token_type)),
            decreases s.len() - self.index,
        {
            let ghost before = self.index as int;
            match self.concat() {
                Ok(tok) => {
                    proof {
                        lemma_joined_push(found@, tok);
                        assert(s.subrange(start, self.index as int) =~= s.subrange(start, before)
                            + tok.value@);
                        if found@.len() > 0 {
                            assert(char_class(s[before]) == Some(tok.token_type));
                        }
                    }
                    found.push(tok);
                    proof {
                        let ts = found@;
                        assert forall|i: int, j: int|
                            0 <= i < ts.len() && 0 <= j < ts[i].value@.len() implies char_class(
                                #[trigger] ts[i].value@[j],
                            ) == Some(ts[i].token_type) by {
                            if i == ts.len() - 1 {
                                assert(ts[i].value@[j] == s[before + j]);
                            }
                        }
                    }
                },
                Err(e) => {
                    proof {
                        let rest = s.subrange(start, s.len() as int);
                        assert forall|i: int| 0 <= i < e.index - start implies (
                            #[trigger] char_class(rest[i])).is_some() by {
                            assert(rest[i] == s[start + i]);
                        }
                        assert(rest[e.index - start] == s[e.index as int]);
                    }
                    return Err(e);
                },
            }
        }
        let ghost old_tokens = self.tokens@;
        let ghost found_view = found@;
        self.tokens.append(&mut found);
        proof {
            let rest = s.subrange(start, s.len() as int);
            assert(self.tokens@.subrange(old_tokens.len() as int, self.tokens@.len() as int)
                =~= found_view);
            assert forall|i: int| 0 <= i < rest.len() implies (#[trigger] char_class(
                rest[i],
            )).is_some() by {
                assert(rest[i] == s[start + i]);
            }
        }
        Ok(())
    }

    /// Moves the given tokens to the end of this tokenizer's tokens.
    pub fn concat_tokens(&mut self, tokens: &mut Vec<Token>)
        requires
            old(self).wf(),
        ensures
            final(self).wf(),
            final(self).content() == old(self).content(),
            final(self).position() == old(self).position(),
            final(self).token_seq() == old(self).token_seq() + old(tokens)@,
            final(tokens)@.len() == 0,
    {
        self.tokens.append(tokens);
    }

    /// The tokens produced so far, taken out of the tokenizer.
    pub(crate) fn into_tokens(self) -> (r: Vec<Token>)
        ensures
            r@ == self.token_seq(),
    {
        self.tokens
    }

    pub fn get_tokens(&self) -> (r: &Vec<Token>)
        ensures
            r@ == self.token_seq(),
    {
        &self.tokens
    }

    /// Whether the whole source has been consumed.
    pub fn is_eos(&self) -> (r: bool)
        ensures
            r == (self.position() >= self.content().len()),
    {
        self.index >= self.file_content.len()
    }

    /// Drops the tokens produced so far.
    pub fn clear(&mut self)
        requires
            old(self).wf(),
        ensures
            final(self).wf(),
            final(self).content() == old(self).content(),
            final(self).position() == old(self).position(),
            final(self).token_seq().len() == 0,
    {
        self.tokens = Vec::new();
    }
}

} // verus!
