use crate::lexer::{lex, lexemes, tokenize, Lexeme, ParseError, Token};
use crate::node::{list_node, push_node, views, Datum, Node};
use vstd::prelude::*;

verus! {

/// Tree building from token `i` on: `open` holds the unfinished lists that
/// enclose the current one, outermost first, and `cur` the current list's
/// elements so far. The top level is the list that no parenthesis opened.
pub open spec fn build(ts: Seq<Lexeme>, i: int, open: Seq<Seq<Datum>>, cur: Seq<Datum>) -> Result<Seq<Datum>, ParseError>
    decreases ts.len() - i,
{
    if i < 0 || i >= ts.len() {
        if open.len() == 0 {
            Ok(cur)
        } else {
            Err(ParseError::UnmatchedLeftParen)
        }
    } else {
        match ts[i] {
            Lexeme::LeftParen => build(ts, i + 1, open.push(cur), Seq::empty()),
            Lexeme::RightParen => if open.len() == 0 {
                Err(ParseError::UnmatchedRightParen)
            } else {
                build(ts, i + 1, open.drop_last(), open.last().push(Datum::List(cur)))
            },
            Lexeme::Atom(d) => build(ts, i + 1, open, cur.push(d)),
        }
    }
}

/// The top-level expressions that a token sequence forms.
pub open spec fn tree_of(ts: Seq<Lexeme>) -> Result<Seq<Datum>, ParseError> {
    build(ts, 0, Seq::empty(), Seq::empty())
}

/// The top-level expressions of a source text.
pub open spec fn parse_spec(cs: Seq<char>) -> Result<Seq<Datum>, ParseError> {
    match lex(cs) {
        Ok(ts) => tree_of(ts),
        Err(e) => Err(e),
    }
}

/// The models of the unfinished lists of the parser's stack.
pub open spec fn stack_views(st: Seq<Vec<Node>>) -> Seq<Seq<Datum>> {
    st.map_values(|v: Vec<Node>| views(v@))
}

/// Builds the top-level expressions from tokens, matching parentheses.
pub fn parse_tokens(tokens: &Vec<Token>) -> (r: Result<Vec<Node>, ParseError>)
    ensures
        match tree_of(lexemes(tokens@)) {
            Ok(ds) => r is Ok && views(r->Ok_0@) == ds,
            Err(e) => r == Err::<Vec<Node>, ParseError>(e),
        },
{
    let ghost ts = lexemes(tokens@);
    let mut stack: Vec<Vec<Node>> = Vec::new();
    let mut cur: Vec<Node> = Vec::new();
    proof {
        assert(stack_views(stack@) =~= Seq::<Seq<Datum>>::empty());
        assert(views(cur@) =~= Seq::<Datum>::empty());
    }
    let n = tokens.len();
    let mut i: usize = 0;
    while i < n
        invariant
            n == ts.len(),
            i <= n,
            ts == lexemes(tokens@),
            tree_of(ts) == build(ts, i as int, stack_views(stack@), views(cur@)),
        decreases n - i,
    {
        let t = &tokens[i];
        proof {
            assert(t@ == ts[i as int]);
        }
        match t {
            Token::LeftParen => {
                let ghost before = stack_views(stack@);
                stack.push(cur);
                cur = Vec::new();
                proof {
                    assert(stack_views(stack@) =~= before.push(views(stack@.last()@)));
                    assert(views(cur@) =~= Seq::<Datum>::empty());
                }
            },
            Token::RightParen => {
                if stack.len() == 0 {
                    return Err(ParseError::UnmatchedRightParen);
                }
                let ghost before = stack_views(stack@);
                let mut outer = stack.pop().unwrap();
                proof {
                    assert(stack_views(stack@) =~= before.drop_last());
                }
                let inner = list_node(cur);
                push_node(&mut outer, inner);
                cur = outer;
            },
            Token::Atom(d) => {
                push_node(&mut cur, d.duplicate());
            },
        }
        i += 1;
    }
    if stack.len() > 0 {
        return Err(ParseError::UnmatchedLeftParen);
    }
    proof {
        assert(stack_views(stack@) =~= Seq::<Seq<Datum>>::empty());
    }
    Ok(cur)
}

/// Reads a source text into its top-level expressions.
pub fn parse(input: &str) -> (r: Result<Vec<Node>, ParseError>)
    ensures
        match parse_spec(input@) {
            Ok(ds) => r is Ok && views(r->Ok_0@) == ds,
            Err(e) => r == Err::<Vec<Node>, ParseError>(e),
        },
{
    match tokenize(input) {
        Ok(tokens) => parse_tokens(&tokens),
        Err(e) => Err(e),
    }
}

pub open spec fn parse_call_spec(a: Seq<Datum>) -> Option<Datum> {
    if a.len() == 1 && a[0] is Text {
        match parse_spec(a[0]->Text_0) {
            Ok(ds) => Some(Datum::List(ds)),
            Err(_) => None,
        }
    } else {
        None
    }
}

/// `(parse text)`: the list of the top-level expressions of a source text.
pub fn fn_parse(arguments: &[Node]) -> (r: Result<Node, String>)
    ensures
        crate::node::outcome(r) == parse_call_spec(views(arguments@)),
{
    if arguments.len() == 1 {
        if let Node::Text(t) = &arguments[0] {
            return match parse(t.as_str()) {
                Ok(nodes) => Ok(list_node(nodes)),
                Err(e) => Err(e.message()),
            };
        }
    }
    Err(crate::node::invalid_arguments("parse"))
}

/// How a token is written by `tokenize`: its kind and its contents.
pub open spec fn token_text(t: Lexeme) -> Seq<char> {
    match t {
        Lexeme::LeftParen => "("@,
        Lexeme::RightParen => ")"@,
        Lexeme::Atom(d) => match d {
            Datum::Symbol(s) => "Symbol"@ + "("@ + s + ")"@,
            Datum::Number(n) => "Number"@ + "("@ + crate::text::decimal(n as int) + ")"@,
            Datum::Float(s) => "Float"@ + "("@ + s + ")"@,
            Datum::Text(s) => "Text"@ + "("@ + s + ")"@,
            Datum::Bool(b) => "Bool"@ + "("@ + (if b { "true"@ } else { "false"@ }) + ")"@,
            _ => crate::display::display(d),
        },
    }
}

pub open spec fn tokenize_call_spec(a: Seq<Datum>) -> Option<Datum> {
    if a.len() == 1 && a[0] is Text {
        match lex(a[0]->Text_0) {
            Ok(ts) => Some(Datum::List(ts.map_values(|t: Lexeme| Datum::Text(token_text(t))))),
            Err(_) => None,
        }
    } else {
        None
    }
}

fn wrapped(kind: &str, inner: &str) -> (r: String)
    ensures
        r@ == kind@ + "("@ + inner@ + ")"@,
{
    let mut r = String::from_str(kind);
    r.append("(");
    r.append(inner);
    r.append(")");
    r
}

pub fn describe(t: &Token) -> (r: String)
    ensures
        r@ == token_text(t@),
{
    match t {
        Token::LeftParen => String::from_str("("),
        Token::RightParen => String::from_str(")"),
        Token::Atom(n) => match n {
            Node::Symbol(s) => wrapped("Symbol", s.as_str()),
            Node::Number(v) => wrapped("Number", crate::text::decimal_text(*v).as_str()),
            Node::Float(s) => wrapped("Float", s.as_str()),
            Node::Text(s) => wrapped("Text", s.as_str()),
            Node::Bool(b) => wrapped("Bool", if *b { "true" } else { "false" }),
            _ => n.to_text(),
        },
    }
}

/// `(tokenize text)`: the tokens of a source text, each written as its kind
/// and contents.
pub fn fn_tokenize(arguments: &[Node]) -> (r: Result<Node, String>)
    ensures
        crate::node::outcome(r) == tokenize_call_spec(views(arguments@)),
{
    if arguments.len() == 1 {
        if let Node::Text(t) = &arguments[0] {
            return match tokenize(t.as_str()) {
                Ok(tokens) => {
                    let ghost ds = lexemes(tokens@).map_values(|l: Lexeme| Datum::Text(token_text(l)));
                    let mut out: Vec<Node> = Vec::new();
                    let mut i: usize = 0;
                    while i < tokens.len()
                        invariant
                            i <= tokens.len(),
                            ds == lexemes(tokens@).map_values(|l: Lexeme| Datum::Text(token_text(l))),
                            views(out@) =~= ds.subrange(0, i as int),
                        decreases tokens.len() - i,
                    {
                        push_node(&mut out, Node::Text(describe(&tokens[i])));
                        i += 1;
                    }
                    assert(ds.subrange(0, i as int) =~= ds);
                    Ok(list_node(out))
                },
                Err(e) => Err(e.message()),
            };
        }
    }
    Err(crate::node::invalid_arguments("tokenize"))
}

impl ParseError {
    /// A description of the error for people.
    pub fn message(&self) -> String {
        match self {
            ParseError::UnterminatedText => String::from_str("Missing closing quote"),
            ParseError::UnexpectedCharacter(_, _) => String::from_str("Unexpected character"),
            ParseError::UnmatchedLeftParen => String::from_str("Unmatched left parenthesis"),
            ParseError::UnmatchedRightParen => String::from_str("Unmatched right parenthesis"),
        }
    }
}

} // verus!
