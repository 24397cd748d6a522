//! The attribute arguments `key = "value", ...` that mark the variants of the
//! component enum, read from the tokens of an attribute's argument list.
use vstd::prelude::*;

verus! {

/// A token of an attribute's argument list.
#[derive(Debug, Clone, PartialEq, Eq)]
pub enum AttrToken {
    /// An identifier, as written (a raw identifier keeps its `r#`).
    Ident(String),
    /// A punctuation character.
    Punct(char),
    /// A string literal, by the text it denotes.
    Str(String),
    /// Any other literal.
    OtherLit,
    /// A delimited group.
    Group,
}

/// The words that are not accepted as the key of an argument.
pub open spec fn is_reserved(s: Seq<char>) -> bool {
    ||| s == "_"@ ||| s == "abstract"@ ||| s == "as"@ ||| s == "async"@ ||| s == "await"@
    ||| s == "become"@ ||| s == "box"@ ||| s == "break"@ ||| s == "const"@ ||| s == "continue"@
    ||| s == "crate"@ ||| s == "do"@ ||| s == "dyn"@ ||| s == "else"@ ||| s == "enum"@
    ||| s == "extern"@ ||| s == "false"@ ||| s == "final"@ ||| s == "fn"@ ||| s == "for"@
    ||| s == "if"@ ||| s == "impl"@ ||| s == "in"@ ||| s == "let"@ ||| s == "loop"@
    ||| s == "macro"@ ||| s == "match"@ ||| s == "mod"@ ||| s == "move"@ ||| s == "mut"@
    ||| s == "override"@ ||| s == "priv"@ ||| s == "pub"@ ||| s == "ref"@ ||| s == "return"@
    ||| s == "Self"@ ||| s == "self"@ ||| s == "static"@ ||| s == "struct"@ ||| s == "super"@
    ||| s == "trait"@ ||| s == "true"@ ||| s == "try"@ ||| s == "type"@ ||| s == "typeof"@
    ||| s == "unsafe"@ ||| s == "unsized"@ ||| s == "use"@ ||| s == "virtual"@ ||| s == "where"@
    ||| s == "while"@ ||| s == "yield"@
}

/// The pair that the first three tokens denote, when they are an unreserved
/// identifier, `=` and a string literal.
pub open spec fn pair_at(t: Seq<AttrToken>) -> Option<(Seq<char>, Seq<char>)> {
    if t.len() >= 3 {
        match (t[0], t[1], t[2]) {
            (AttrToken::Ident(k), AttrToken::Punct(c), AttrToken::Str(v)) => {
                if !is_reserved(k@) && c == '=' {
                    Some((k@, v@))
                } else {
                    None
                }
            },
            _ => None,
        }
    } else {
        None
    }
}

/// The pairs that a list of tokens denotes, when it is a list of
/// `key = "value"` separated by commas, with an optional trailing comma.
pub open spec fn parse_pairs(t: Seq<AttrToken>) -> Option<Seq<(Seq<char>, Seq<char>)>>
    decreases t.len(),
{
    if t.len() == 0 {
        Some(Seq::empty())
    } else {
        match pair_at(t) {
            Some(pair) => {
                if t.len() == 3 {
                    Some(seq![pair])
                } else if t[3] == AttrToken::Punct(',') {
                    match parse_pairs(t.skip(4)) {
                        Some(rest) => Some(seq![pair] + rest),
                        None => None,
                    }
                } else {
                    None
                }
            },
            None => None,
        }
    }
}

/// Whether the text equals a literal.
fn text_is(s: &String, lit: &str) -> (b: bool)
    ensures
        b == (s@ == lit@),
{
    *s == lit.to_owned()
}

/// Whether a word is reserved, so that it is refused as a key.
pub fn reserved_word(s: &String) -> (b: bool)
    ensures
        b == is_reserved(s@),
{
    text_is(s, "_") || text_is(s, "abstract") || text_is(s, "as") || text_is(s, "async")
        || text_is(s, "await") || text_is(s, "become") || text_is(s, "box") || text_is(s, "break")
        || text_is(s, "const") || text_is(s, "continue") || text_is(s, "crate") || text_is(s, "do")
        || text_is(s, "dyn") || text_is(s, "else") || text_is(s, "enum") || text_is(s, "extern")
        || text_is(s, "false") || text_is(s, "final") || text_is(s, "fn") || text_is(s, "for")
        || text_is(s, "if") || text_is(s, "impl") || text_is(s, "in") || text_is(s, "let")
        || text_is(s, "loop") || text_is(s, "macro") || text_is(s, "match") || text_is(s, "mod")
        || text_is(s, "move") || text_is(s, "mut") || text_is(s, "override") || text_is(s, "priv")
        || text_is(s, "pub") || text_is(s, "ref") || text_is(s, "return") || text_is(s, "Self")
        || text_is(s, "self") || text_is(s, "static") || text_is(s, "struct") || text_is(s, "super")
        || text_is(s, "trait") || text_is(s, "true") || text_is(s, "try") || text_is(s, "type")
        || text_is(s, "typeof") || text_is(s, "unsafe") || text_is(s, "unsized") || text_is(s, "use")
        || text_is(s, "virtual") || text_is(s, "where") || text_is(s, "while") || text_is(s, "yield")
}

/// The text views of a list of pairs.
pub open spec fn pair_views(v: Seq<(String, String)>) -> Seq<(Seq<char>, Seq<char>)> {
    v.map_values(|p: (String, String)| (p.0@, p.1@))
}

/// The `key = "value"` arguments of an attribute, in order.
#[derive(Debug, Clone, PartialEq, Eq)]
pub struct Attrs(pub Vec<(String, String)>);

impl Attrs {
    /// No arguments.
    pub fn empty() -> (a: Attrs)
        ensures
            a.0@.len() == 0,
    {
        Attrs(Vec::new())
    }

    /// Reads the arguments from the tokens of an argument list; `None` when the
    /// tokens are not such a list.
    pub fn parse(tokens: &Vec<AttrToken>) -> (r: Option<Attrs>)
        ensures
            match parse_pairs(tokens@) {
                Some(p) => r matches Some(a) && pair_views(a.0@) == p,
                None => r is None,
            },
    {
        let mut out: Vec<(String, String)> = Vec::new();
        let mut i: usize = 0;
        assert(tokens@.skip(0) =~= tokens@);
        assert(pair_views(out@) + Seq::<(Seq<char>, Seq<char>)>::empty() =~= Seq::empty());
        assert forall|p: Seq<(Seq<char>, Seq<char>)>| pair_views(out@) + p =~= p by {}
        while i < tokens.len()
            invariant_except_break
                i <= tokens.len(),
                parse_pairs(tokens@) == match parse_pairs(tokens@.skip(i as int)) {
                    Some(rest) => Some(pair_views(out@) + rest),
                    None => None,
                },
            ensures
                match parse_pairs(tokens@) {
                    Some(p) => i == tokens.len() && pair_views(out@) == p,
                    None => i < tokens.len(),
                },
            decreases tokens.len() - i,
        {
            let ghost t = tokens@.skip(i as int);
            if tokens.len() - i >= 3 {
                let key = match &tokens[i] {
                    AttrToken::Ident(k) => if reserved_word(k) { None } else { Some(k) },
                    _ => None,
                };
                let eq = match &tokens[i + 1] {
                    AttrToken::Punct(c) => *c == '=',
                    _ => false,
                };
                let value = match &tokens[i + 2] {
                    AttrToken::Str(v) => Some(v),
                    _ => None,
                };
                assert(t[0] == tokens@[i as int] && t[1] == tokens@[i + 1] && t[2] == tokens@[i + 2]);
                match (key, value) {
                    (Some(k), Some(v)) => {
                        if !eq {
                            break;
                        }
                        let ghost old_out = out@;
                        out.push((k.clone(), v.clone()));
                        proof {
                            assert(pair_views(out@) =~= pair_views(old_out) + seq![(k@, v@)]);
                        }
                        if i + 3 == tokens.len() {
                            proof {
                                assert(tokens@.skip(i + 3).len() == 0);
                                assert(pair_views(out@) =~= pair_views(old_out) + seq![(k@, v@)]);
                            }
                            i = i + 3;
                            assert(parse_pairs(tokens@) == Some(pair_views(out@)));
                            break;
                        }
                        let comma = match &tokens[i + 3] {
                            AttrToken::Punct(c) => *c == ',',
                            _ => false,
                        };
                        assert(t[3] == tokens@[i + 3]);
                        if !comma {
                            break;
                        }
                        proof {
                            assert(t.skip(4) =~= tokens@.skip(i + 4));
                            match parse_pairs(tokens@.skip(i + 4)) {
                                Some(rest) => {
                                    assert(pair_views(old_out) + (seq![(k@, v@)] + rest)
                                        =~= pair_views(out@) + rest);
                                },
                                None => {},
                            }
                        }
                        i = i + 4;
                    },
                    _ => {
                        break;
                    },
                }
            } else {
                break;
            }
        }
        if i == tokens.len() {
            Some(Attrs(out))
        } else {
            None
        }
    }
}

} // verus!

verus! {

/// The tokens that write `key = "value"`.
pub open spec fn pair_tokens(p: (String, String)) -> Seq<AttrToken> {
    seq![AttrToken::Ident(p.0), AttrToken::Punct('='), AttrToken::Str(p.1)]
}

/// The tokens that write the pairs, separated by commas.
pub open spec fn tokens_of(pairs: Seq<(String, String)>) -> Seq<AttrToken>
    decreases pairs.len(),
{
    if pairs.len() == 0 {
        Seq::empty()
    } else if pairs.len() == 1 {
        pair_tokens(pairs[0])
    } else {
        pair_tokens(pairs[0]) + seq![AttrToken::Punct(',')] + tokens_of(pairs.skip(1))
    }
}

/// Reading back written arguments gives the same pairs, in order, with or
/// without a trailing comma, as long as no key is a reserved word.
pub proof fn law_attrs_roundtrip(pairs: Seq<(String, String)>)
    requires
        forall|i: int| 0 <= i < pairs.len() ==> !is_reserved((#[trigger] pairs[i]).0@),
    ensures
        parse_pairs(tokens_of(pairs)) == Some(pair_views(pairs)),
        pairs.len() > 0 ==> parse_pairs(tokens_of(pairs) + seq![AttrToken::Punct(',')]) == Some(pair_views(pairs)),
    decreases pairs.len(),
{
    if pairs.len() == 0 {
        assert(pair_views(pairs) =~= Seq::empty());
    } else {
        let t = tokens_of(pairs);
        let tc = t + seq![AttrToken::Punct(',')];
        let head = (pairs[0].0@, pairs[0].1@);
        assert(pair_views(pairs) =~= seq![head] + pair_views(pairs.skip(1)));
        if pairs.len() == 1 {
            assert(pair_at(t) == Some(head));
            assert(pair_views(pairs) =~= seq![head]);
            assert(tc.len() == 4 && tc[3] == AttrToken::Punct(','));
            assert(tc.skip(4) =~= Seq::<AttrToken>::empty());
            assert(pair_at(tc) == Some(head));
            assert(seq![head] + Seq::<(Seq<char>, Seq<char>)>::empty() =~= seq![head]);
        } else {
            let rest = pairs.skip(1);
            assert forall|i: int| 0 <= i < rest.len() implies !is_reserved((#[trigger] rest[i]).0@) by {
                assert(rest[i] == pairs[i + 1]);
            }
            law_attrs_roundtrip(rest);
            assert(pair_at(t) == Some(head));
            assert(t[3] == AttrToken::Punct(','));
            assert(t.skip(4) =~= tokens_of(rest));
            assert(pair_at(tc) == Some(head));
            assert(tc[3] == AttrToken::Punct(','));
            assert(tc.skip(4) =~= tokens_of(rest) + seq![AttrToken::Punct(',')]);
        }
    }
}

} // verus!
