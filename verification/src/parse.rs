use vstd::prelude::*;

use crate::mode::Mode;
use crate::request::{views, ReqV, Request};
use crate::token::{token_views, Token, TokenV};

verus! {

/// Why an input was rejected. Every error is fatal: a single malformed
/// entry invalidates the whole input, and no output is produced.
#[derive(Clone, Copy, PartialEq, Eq, Structural, Debug)]
pub enum Error {
    /// The token sequence does not match the `<target> <mode> [,]`
    /// triple grammar: a token of the wrong kind, or a truncated group.
    Grammar,
    /// A mode keyword is none of `read`, `readclone`, `write`, `lock`.
    UnknownMode,
    /// Unexpected punctuation where a separator or the end of the input
    /// was expected.
    Separator,
}

impl Error {
    /// The diagnostic text named by this error.
    pub open spec fn spec_message(self) -> Seq<char> {
        match self {
            Error::Grammar => "Must be \"<target> <mode> [,]\""@,
            Error::UnknownMode => "mode must be read|readclone|write|lock"@,
            Error::Separator => "Must be \"<target> <mode> [,]\""@,
        }
    }

    /// The diagnostic text named by this error.
    pub fn message(&self) -> (m: &'static str)
        ensures
            m@ == self.spec_message(),
    {
        match self {
            Error::Grammar => "Must be \"<target> <mode> [,]\"",
            Error::UnknownMode => "mode must be read|readclone|write|lock",
            Error::Separator => "Must be \"<target> <mode> [,]\"",
        }
    }
}

/// What parsing a token sequence yields: the requests in input order, or
/// the first error.
///
/// The grammar is a sequence of groups `<target> <mode> [,]`: a target
/// identifier, a mode keyword, and a comma separator that may be absent
/// only after the last group. Checks run per group, in this order:
/// both leading tokens must be identifiers (else `Grammar`), the
/// separator position must hold a comma (another punctuation character
/// is `Separator`, any other token `Grammar`), and the mode keyword
/// must be recognised (else `UnknownMode`).
pub open spec fn spec_parse(toks: Seq<TokenV>) -> Result<Seq<ReqV>, Error>
    decreases toks.len(),
{
    if toks.len() == 0 {
        Ok(Seq::<ReqV>::empty())
    } else if toks.len() == 1 {
        Err(Error::Grammar)
    } else {
        match (toks[0], toks[1]) {
            (TokenV::Ident(name), TokenV::Ident(mode_text)) => {
                if toks.len() == 2 {
                    match Mode::spec_from_text(mode_text) {
                        Some(m) => Ok(seq![ReqV { name, mode: m }]),
                        None => Err(Error::UnknownMode),
                    }
                } else {
                    match toks[2] {
                        TokenV::Punct(c) => {
                            if c == ',' {
                                match Mode::spec_from_text(mode_text) {
                                    Some(m) => match spec_parse(toks.skip(3)) {
                                        Ok(rest) => Ok(seq![ReqV { name, mode: m }] + rest),
                                        Err(e) => Err(e),
                                    },
                                    None => Err(Error::UnknownMode),
                                }
                            } else {
                                Err(Error::Separator)
                            }
                        },
                        _ => Err(Error::Grammar),
                    }
                }
            },
            _ => Err(Error::Grammar),
        }
    }
}

/// Parse a flat token sequence into a request list — the Request
/// Parser. The list preserves input order; ordering is the next stage's
/// concern. Succeeds exactly on token sequences that `spec_parse`
/// accepts, and returns exactly the error it names otherwise.
pub fn parse(tokens: &Vec<Token>) -> (r: Result<Vec<Request>, Error>)
    ensures
        (match (r, spec_parse(token_views(tokens@))) {
            (Ok(v), Ok(s)) => views(v@) == s,
            (Err(e1), Err(e2)) => e1 == e2,
            _ => false,
        }),
{
    let ghost tvs = token_views(tokens@);
    let n = tokens.len();
    let mut out: Vec<Request> = Vec::new();
    let mut i: usize = 0;
    proof {
        assert(tvs.skip(0) =~= tvs);
        assert(views(out@) =~= Seq::<ReqV>::empty());
    }
    loop
        invariant
            i <= n,
            n == tokens@.len(),
            tvs == token_views(tokens@),
            (spec_parse(tvs) == match spec_parse(tvs.skip(i as int)) {
                Ok(rest) => Ok::<Seq<ReqV>, Error>(views(out@) + rest),
                Err(e) => Err::<Seq<ReqV>, Error>(e),
            }),
        decreases n - i,
    {
        let ghost s_i = tvs.skip(i as int);
        if i == n {
            proof {
                assert(s_i.len() == 0);
                assert(views(out@) + Seq::<ReqV>::empty() =~= views(out@));
            }
            return Ok(out);
        }
        proof {
            assert(s_i[0] == tvs[i as int]);
            assert(tvs[i as int] == tokens@[i as int]@);
        }
        if i + 1 == n {
            proof {
                assert(s_i.len() == 1);
            }
            return Err(Error::Grammar);
        }
        proof {
            assert(s_i[1] == tvs[i as int + 1]);
            assert(tvs[i as int + 1] == tokens@[i as int + 1]@);
        }
        let name: String = match &tokens[i] {
            Token::Ident(s) => s.clone(),
            _ => {
                return Err(Error::Grammar);
            },
        };
        let ghost name_v = name@;
        let mode_text: &String = match &tokens[i + 1] {
            Token::Ident(s) => s,
            _ => {
                return Err(Error::Grammar);
            },
        };
        let mut next_i: usize = i + 2;
        if i + 2 < n {
            proof {
                assert(s_i[2] == tvs[i as int + 2]);
                assert(tvs[i as int + 2] == tokens@[i as int + 2]@);
            }
            match &tokens[i + 2] {
                Token::Punct(c) => {
                    if *c != ',' {
                        return Err(Error::Separator);
                    }
                    next_i = i + 3;
                },
                _ => {
                    return Err(Error::Grammar);
                },
            }
        }
        let mode = match Mode::from_text(mode_text.as_str()) {
            Some(m) => m,
            None => {
                return Err(Error::UnknownMode);
            },
        };
        let ghost prev_out = out@;
        out.push(Request { name, mode });
        proof {
            let rv = ReqV { name: name_v, mode };
            assert(s_i[0] == TokenV::Ident(name_v));
            assert(views(out@) =~= views(prev_out).push(rv));
            assert(views(prev_out).push(rv) =~= views(prev_out) + seq![rv]);
            if next_i == i + 3 {
                assert(s_i.skip(3) =~= tvs.skip(next_i as int));
                assert(spec_parse(s_i) == match spec_parse(tvs.skip(next_i as int)) {
                    Ok(rest) => Ok::<Seq<ReqV>, Error>(seq![rv] + rest),
                    Err(e) => Err::<Seq<ReqV>, Error>(e),
                });
                match spec_parse(tvs.skip(next_i as int)) {
                    Ok(rest) => {
                        assert(views(prev_out) + (seq![rv] + rest) =~= views(out@) + rest);
                    },
                    Err(e) => {},
                }
            } else {
                assert(s_i.len() == 2);
                assert(next_i == n);
                assert(spec_parse(s_i) == Ok::<Seq<ReqV>, Error>(seq![rv]));
                assert(tvs.skip(n as int) =~= Seq::<TokenV>::empty());
                assert(views(prev_out) + seq![rv] =~= views(out@) + Seq::<ReqV>::empty());
            }
        }
        i = next_i;
    }
}

} // verus!
