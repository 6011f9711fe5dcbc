//! The textual command adapter: one line of the grammar
//! `GET <key>` | `GET_PROVIDERS <key>` | `PUT <key> <value>` |
//! `PUT_PROVIDER <key>` parsed into a command. Splitting is on single
//! spaces, exactly: consecutive spaces yield empty tokens, an empty token
//! is a valid (empty) key or value, and anything after the tokens a form
//! consumes is ignored.

use vstd::prelude::*;
use vstd::string::StrSliceExecFns;
use vstd::utf8::encode_utf8;
use crate::data::P2pCommand;

verus! {

/// Why a line did not parse.
#[derive(Debug, Clone, Copy, PartialEq, Eq)]
pub enum ParseError {
    /// The form needs a key token and none follows the verb.
    MissingKey,
    /// `PUT` needs a value token after the key and none is there.
    MissingValue,
    /// The first token is no verb of the grammar.
    UnknownCommand,
}

/// The tokens of a line split on single spaces, as Rust's `split(' ')`
/// yields them: always at least one token, one more per space.
pub open spec fn split_tokens(s: Seq<char>) -> Seq<Seq<char>>
    decreases s.len(),
{
    if s.len() == 0 {
        seq![Seq::<char>::empty()]
    } else if s[0] == ' ' {
        seq![Seq::<char>::empty()] + split_tokens(s.skip(1))
    } else {
        let rest = split_tokens(s.skip(1));
        seq![seq![s[0]] + rest[0]] + rest.skip(1)
    }
}

/// A line without spaces is a single token: itself.
proof fn lemma_split_no_space(s: Seq<char>)
    requires
        forall|j: int| 0 <= j < s.len() ==> s[j] != ' ',
    ensures
        split_tokens(s) == seq![s],
    decreases s.len(),
{
    if s.len() == 0 {
        assert(s =~= Seq::<char>::empty());
        assert(split_tokens(s) =~= seq![s]);
    } else {
        lemma_split_no_space(s.skip(1));
        let rest = split_tokens(s.skip(1));
        assert(rest == seq![s.skip(1)]);
        assert(seq![s[0]] + s.skip(1) =~= s);
        assert(rest.skip(1) =~= Seq::<Seq<char>>::empty());
        assert(split_tokens(s) =~= seq![s]);
    }
}

/// Splitting at the first space: the head token, then the split of what
/// follows the space.
proof fn lemma_split_at_first_space(s: Seq<char>, i: int)
    requires
        0 <= i < s.len(),
        s[i] == ' ',
        forall|j: int| 0 <= j < i ==> s[j] != ' ',
    ensures
        split_tokens(s) == seq![s.take(i)] + split_tokens(s.skip(i + 1)),
    decreases i,
{
    if i == 0 {
        assert(s.take(0) =~= Seq::<char>::empty());
        assert(split_tokens(s) =~= seq![s.take(0)] + split_tokens(s.skip(1)));
    } else {
        let tail = s.skip(1);
        assert(tail[i - 1] == ' ');
        lemma_split_at_first_space(tail, i - 1);
        let rest = split_tokens(tail);
        assert(rest == seq![tail.take(i - 1)] + split_tokens(tail.skip(i)));
        assert(rest[0] == tail.take(i - 1));
        assert(seq![s[0]] + tail.take(i - 1) =~= s.take(i));
        assert(rest.skip(1) =~= split_tokens(tail.skip(i)));
        assert(tail.skip(i) =~= s.skip(i + 1));
        assert(split_tokens(s) =~= seq![s.take(i)] + split_tokens(s.skip(i + 1)));
    }
}

/// The position of the first space, if any.
fn find_space(s: &str) -> (r: Option<usize>)
    ensures
        match r {
            Some(i) => i < s@.len() && s@[i as int] == ' ' && forall|j: int|
                0 <= j < i ==> s@[j] != ' ',
            None => forall|j: int| 0 <= j < s@.len() ==> s@[j] != ' ',
        },
{
    let n = s.unicode_len();
    let mut i: usize = 0;
    while i < n
        invariant
            i <= n,
            n == s@.len(),
            forall|j: int| 0 <= j < i ==> s@[j] != ' ',
        decreases n - i,
    {
        if s.get_char(i) == ' ' {
            return Some(i);
        }
        i = i + 1;
    }
    None
}

/// Split a line on single spaces into its tokens.
pub fn split_line(line: &str) -> (tokens: Vec<String>)
    ensures
        tokens@.map_values(|t: String| t@) == split_tokens(line@),
        tokens@.len() >= 1,
{
    let mut tokens: Vec<String> = Vec::new();
    let mut rest: &str = line;
    loop
        invariant_except_break
            split_tokens(line@) == tokens@.map_values(|t: String| t@) + split_tokens(rest@),
        ensures
            split_tokens(line@) == tokens@.map_values(|t: String| t@),
            tokens@.len() >= 1,
        decreases rest@.len(),
    {
        proof {
            assert(tokens@.map_values(|t: String| t@) + split_tokens(rest@) == split_tokens(
                line@,
            ));
        }
        match find_space(rest) {
            Some(i) => {
                let ghost tokens_before = tokens@;
                let n = rest.unicode_len();
                let tok = rest.substring_char(0, i).to_owned();
                let next = rest.substring_char(i + 1, n);
                tokens.push(tok);
                proof {
                    lemma_split_at_first_space(rest@, i as int);
                    assert(tok@ == rest@.take(i as int));
                    assert(next@ =~= rest@.skip(i + 1));
                    assert(tokens@.map_values(|t: String| t@) =~= tokens_before.map_values(
                        |t: String| t@,
                    ).push(rest@.take(i as int)));
                    assert(tokens@.map_values(|t: String| t@) + split_tokens(next@)
                        =~= tokens_before.map_values(|t: String| t@) + split_tokens(rest@));
                }
                rest = next;
            },
            None => {
                let ghost tokens_before = tokens@;
                tokens.push(rest.to_owned());
                proof {
                    lemma_split_no_space(rest@);
                    assert(tokens@.map_values(|t: String| t@) =~= tokens_before.map_values(
                        |t: String| t@,
                    ).push(rest@));
                    assert(tokens@.map_values(|t: String| t@) =~= tokens_before.map_values(
                        |t: String| t@,
                    ) + split_tokens(rest@));
                }
                break;
            },
        }
    }
    tokens
}

/// Character-exact comparison of two text slices.
fn text_equal(a: &str, b: &str) -> (r: bool)
    ensures
        r == (a@ == b@),
{
    let na = a.unicode_len();
    let nb = b.unicode_len();
    if na != nb {
        return false;
    }
    let mut i: usize = 0;
    while i < na
        invariant
            i <= na,
            na == a@.len(),
            na == b@.len(),
            forall|j: int| 0 <= j < i ==> a@[j] == b@[j],
        decreases na - i,
    {
        if a.get_char(i) != b.get_char(i) {
            return false;
        }
        i = i + 1;
    }
    proof {
        assert(a@ =~= b@);
    }
    true
}

/// Parse one line of the textual grammar into a command. The ensures reads
/// over the line's tokens: each verb with enough tokens yields exactly its
/// command, a verb short of tokens yields the matching error, and an
/// unknown verb is refused.
pub fn parse_command_line(line: &str) -> (r: Result<P2pCommand, ParseError>)
    ensures
        ({
            let toks = split_tokens(line@);
            &&& (toks[0] == "GET"@ && toks.len() >= 2 ==> (r matches Ok(
                P2pCommand::GetRecord(k),
            ) && k@ == toks[1]))
            &&& (toks[0] == "GET"@ && toks.len() == 1 ==> r == Err::<P2pCommand, ParseError>(
                ParseError::MissingKey,
            ))
            &&& (toks[0] == "GET_PROVIDERS"@ && toks.len() >= 2 ==> (r matches Ok(
                P2pCommand::GetProviders(k),
            ) && k@ == toks[1]))
            &&& (toks[0] == "GET_PROVIDERS"@ && toks.len() == 1 ==> r == Err::<
                P2pCommand,
                ParseError,
            >(ParseError::MissingKey))
            &&& (toks[0] == "PUT"@ && toks.len() >= 3 ==> (r matches Ok(
                P2pCommand::PutRecord(k, v),
            ) && k@ == toks[1] && v@ == encode_utf8(toks[2])))
            &&& (toks[0] == "PUT"@ && toks.len() == 2 ==> r == Err::<P2pCommand, ParseError>(
                ParseError::MissingValue,
            ))
            &&& (toks[0] == "PUT"@ && toks.len() == 1 ==> r == Err::<P2pCommand, ParseError>(
                ParseError::MissingKey,
            ))
            &&& (toks[0] == "PUT_PROVIDER"@ && toks.len() >= 2 ==> (r matches Ok(
                P2pCommand::PutProvider(k),
            ) && k@ == toks[1]))
            &&& (toks[0] == "PUT_PROVIDER"@ && toks.len() == 1 ==> r == Err::<
                P2pCommand,
                ParseError,
            >(ParseError::MissingKey))
            &&& (toks[0] != "GET"@ && toks[0] != "GET_PROVIDERS"@ && toks[0] != "PUT"@ && toks[0]
                != "PUT_PROVIDER"@ ==> r == Err::<P2pCommand, ParseError>(
                ParseError::UnknownCommand,
            ))
        }),
{
    proof {
        reveal_strlit("GET");
        reveal_strlit("GET_PROVIDERS");
        reveal_strlit("PUT");
        reveal_strlit("PUT_PROVIDER");
        // the four verbs are pairwise distinct, by length or first letter
        assert("GET"@.len() == 3 && "GET_PROVIDERS"@.len() == 13 && "PUT"@.len() == 3
            && "PUT_PROVIDER"@.len() == 12);
        assert("GET"@ != "PUT"@) by {
            assert("GET"@[0] == 'G' && "PUT"@[0] == 'P');
        }
        assert("GET"@ != "GET_PROVIDERS"@ && "GET"@ != "PUT_PROVIDER"@);
        assert("GET_PROVIDERS"@ != "PUT"@ && "GET_PROVIDERS"@ != "PUT_PROVIDER"@);
        assert("PUT"@ != "PUT_PROVIDER"@);
    }
    let tokens = split_line(line);
    let ghost toks = split_tokens(line@);
    proof {
        assert(toks[0] == tokens@[0]@);
        assert(toks.len() == tokens@.len());
        if 1 < tokens@.len() {
            assert(toks[1] == tokens@[1]@);
        }
        if 2 < tokens@.len() {
            assert(toks[2] == tokens@[2]@);
        }
    }
    if text_equal(tokens[0].as_str(), "GET") {
        if tokens.len() >= 2 {
            Ok(P2pCommand::GetRecord(tokens[1].as_str().to_owned()))
        } else {
            Err(ParseError::MissingKey)
        }
    } else if text_equal(tokens[0].as_str(), "GET_PROVIDERS") {
        if tokens.len() >= 2 {
            Ok(P2pCommand::GetProviders(tokens[1].as_str().to_owned()))
        } else {
            Err(ParseError::MissingKey)
        }
    } else if text_equal(tokens[0].as_str(), "PUT") {
        if tokens.len() >= 3 {
            Ok(
                P2pCommand::PutRecord(
                    tokens[1].as_str().to_owned(),
                    tokens[2].as_str().as_bytes_vec(),
                ),
            )
        } else if tokens.len() == 2 {
            Err(ParseError::MissingValue)
        } else {
            Err(ParseError::MissingKey)
        }
    } else if text_equal(tokens[0].as_str(), "PUT_PROVIDER") {
        if tokens.len() >= 2 {
            Ok(P2pCommand::PutProvider(tokens[1].as_str().to_owned()))
        } else {
            Err(ParseError::MissingKey)
        }
    } else {
        Err(ParseError::UnknownCommand)
    }
}

} // verus!
