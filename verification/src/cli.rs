//! Tokenizing and reading the line commands a human types at the client
//! prompt: `get <key>` and `set <key> <value>`, with double quotes grouping
//! words that contain spaces.

use vstd::prelude::*;
use vstd::string::StrSliceExecFns;

verus! {

/// A line that does not tokenize or does not form a command.
#[derive(Debug, Clone, Copy, PartialEq, Eq, Structural)]
pub struct SyntaxError;

/// One step short of the wire: what the user asked for.
#[derive(Debug, Clone, PartialEq)]
pub enum Command {
    Get(String),
    Put { key: String, value: String },
}

/// The tokenizer's state machine: `word` is the token being built, `quote`
/// whether a double quote is open, `acc` the tokens finished so far. A
/// quote that never closes fails the whole line.
pub open spec fn spec_tokenize_rec(
    cs: Seq<char>,
    word: Seq<char>,
    quote: bool,
    acc: Seq<Seq<char>>,
) -> Option<Seq<Seq<char>>>
    decreases cs.len(),
{
    if cs.len() == 0 {
        if quote {
            None
        } else if word.len() > 0 {
            Some(acc.push(word))
        } else {
            Some(acc)
        }
    } else {
        let c = cs[0];
        let rest = cs.drop_first();
        if c == '"' {
            if quote {
                spec_tokenize_rec(rest, Seq::empty(), false, acc.push(word))
            } else {
                spec_tokenize_rec(rest, word, true, acc)
            }
        } else if c == ' ' {
            if quote {
                spec_tokenize_rec(rest, word.push(c), true, acc)
            } else if word.len() > 0 {
                spec_tokenize_rec(rest, Seq::empty(), false, acc.push(word))
            } else {
                spec_tokenize_rec(rest, word, false, acc)
            }
        } else {
            spec_tokenize_rec(rest, word.push(c), quote, acc)
        }
    }
}

/// The tokens of a line, or nothing where a quote never closes.
pub open spec fn spec_tokenize(line: Seq<char>) -> Option<Seq<Seq<char>>> {
    spec_tokenize_rec(line, Seq::empty(), false, Seq::empty())
}

/// Relies on `String::from_iter` over `char`s: the collected string holds
/// exactly the characters of the vector, in order.
#[verifier::external_body]
fn chars_to_string(chars: Vec<char>) -> (r: String)
    ensures
        r@ == chars@,
{
    chars.into_iter().collect()
}

/// Split a line into tokens: words separated by spaces, with double quotes
/// grouping characters (spaces included) into one token. An unclosed quote
/// is a syntax error.
pub fn tokenize_line(line: String) -> (r: Result<Vec<String>, SyntaxError>)
    ensures
        spec_tokenize(line@) is None ==> r is Err,
        spec_tokenize(line@) matches Some(ts) ==> (r matches Ok(v) && v.deep_view() == ts),
{
    let s = line.as_str();
    let n = s.unicode_len();
    let mut tokens: Vec<String> = Vec::new();
    let mut word: Vec<char> = Vec::new();
    let mut quote = false;
    let mut i: usize = 0;
    proof {
        assert(line@.subrange(0, line@.len() as int) =~= line@);
        assert(tokens.deep_view() =~= Seq::<Seq<char>>::empty());
    }
    while i < n
        invariant
            i <= n,
            n == line@.len(),
            s@ == line@,
            spec_tokenize_rec(
                line@.subrange(i as int, line@.len() as int),
                word@,
                quote,
                tokens.deep_view(),
            ) == spec_tokenize(line@),
        decreases n - i,
    {
        let c = s.get_char(i);
        let ghost cs = line@.subrange(i as int, line@.len() as int);
        proof {
            assert(cs[0] == line@[i as int]);
            assert(cs.drop_first() =~= line@.subrange(i + 1, line@.len() as int));
        }
        if c == '"' {
            if quote {
                let ghost before = tokens.deep_view();
                let ghost w = word@;
                tokens.push(chars_to_string(word));
                word = Vec::new();
                quote = false;
                proof {
                    assert(tokens.deep_view() =~= before.push(w));
                    assert(word@ =~= Seq::<char>::empty());
                }
            } else {
                quote = true;
            }
        } else if c == ' ' {
            if quote {
                word.push(c);
            } else if word.len() > 0 {
                let ghost before = tokens.deep_view();
                let ghost w = word@;
                tokens.push(chars_to_string(word));
                word = Vec::new();
                proof {
                    assert(tokens.deep_view() =~= before.push(w));
                    assert(word@ =~= Seq::<char>::empty());
                }
            }
        } else {
            word.push(c);
        }
        i = i + 1;
    }
    proof {
        assert(line@.subrange(n as int, line@.len() as int) =~= Seq::<char>::empty());
    }
    if quote {
        return Err(SyntaxError);
    }
    if word.len() > 0 {
        let ghost before = tokens.deep_view();
        let ghost w = word@;
        tokens.push(chars_to_string(word));
        proof {
            assert(tokens.deep_view() =~= before.push(w));
        }
    }
    Ok(tokens)
}

/// Read a token list as a command: `get <key>` or `set <key> <value>`,
/// nothing else.
pub fn parse_command(tokens: Vec<String>) -> (r: Result<Command, SyntaxError>)
    ensures
        ({
            let dv = tokens.deep_view();
            &&& (dv.len() == 2 && dv[0] == "get"@) ==> (r matches Ok(c) && c matches Command::Get(
                k,
            ) && k@ == dv[1])
            &&& (dv.len() == 3 && dv[0] == "set"@) ==> (r matches Ok(c) && c matches Command::Put {
                key,
                value,
            } && key@ == dv[1] && value@ == dv[2])
            &&& !(dv.len() == 2 && dv[0] == "get"@) && !(dv.len() == 3 && dv[0] == "set"@)
                ==> r is Err
        }),
{
    let mut tokens = tokens;
    if tokens.len() == 2 {
        let head: &String = &tokens[0];
        if head.eq(&"get".to_owned()) {
            let key = tokens.remove(1);
            return Ok(Command::Get(key));
        }
        return Err(SyntaxError);
    }
    if tokens.len() == 3 {
        let head: &String = &tokens[0];
        if head.eq(&"set".to_owned()) {
            let value = tokens.remove(2);
            let key = tokens.remove(1);
            return Ok(Command::Put { key, value });
        }
        return Err(SyntaxError);
    }
    Err(SyntaxError)
}

} // verus!
