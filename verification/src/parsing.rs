//! The argument-template engine: tokenizes a shell-like string
//! (quoting, escaping, `$name` / `${name}` substitution) under one of
//! two strategies.  `Ignore` keeps quote and escape decoration in the
//! output; the mapping strategy strips it and replaces every variable
//! reference through a name-to-value table.

use vstd::prelude::*;

use crate::strutil::{
    spec_is_space, spec_is_ident_char, spec_find_char, is_space, is_ident_char, find_char,
    lemma_find_char_range, str_eq, chars_range_to_string, char_string, str_to_chars,
};

verus! {

/// A name-to-value table driving variable substitution.  A lookup of a
/// name that was never inserted yields the empty string; of a name
/// inserted more than once, the value inserted last.
pub struct VariableMap {
    entries: Vec<(String, String)>,
}

impl View for VariableMap {
    type V = Seq<(Seq<char>, Seq<char>)>;

    closed spec fn view(&self) -> Seq<(Seq<char>, Seq<char>)> {
        self.entries@.map_values(|p: (String, String)| (p.0@, p.1@))
    }
}

/// The value bound to `name`: that of the latest entry whose name
/// matches, or the empty sequence if none does.
pub open spec fn spec_lookup(m: Seq<(Seq<char>, Seq<char>)>, name: Seq<char>) -> Seq<char>
    decreases m.len(),
{
    if m.len() == 0 {
        Seq::empty()
    } else if m.last().0 == name {
        m.last().1
    } else {
        spec_lookup(m.drop_last(), name)
    }
}

impl VariableMap {
    /// An empty table.
    pub fn new() -> (r: VariableMap)
        ensures
            r@ == Seq::<(Seq<char>, Seq<char>)>::empty(),
    {
        let r = VariableMap { entries: Vec::new() };
        proof {
            assert(r@ =~= Seq::<(Seq<char>, Seq<char>)>::empty());
        }
        r
    }

    /// Bind `name` to `value`, shadowing any earlier binding.
    pub fn insert(&mut self, name: String, value: String)
        ensures
            final(self)@ == old(self)@.push((name@, value@)),
    {
        let ghost n = name@;
        let ghost v = value@;
        self.entries.push((name, value));
        proof {
            assert(final(self)@ =~= old(self)@.push((n, v)));
        }
    }

    /// Look a name up; never fails, an unbound name resolves to the
    /// empty string.
    pub fn resolve(&self, name: &str) -> (r: String)
        ensures
            r@ == spec_lookup(self@, name@),
    {
        let mut i: usize = self.entries.len();
        proof {
            assert(self@.subrange(0, i as int) =~= self@);
        }
        while i > 0
            invariant
                i <= self.entries@.len(),
                self@ == self.entries@.map_values(|p: (String, String)| (p.0@, p.1@)),
                spec_lookup(self@, name@) == spec_lookup(
                    self@.subrange(0, i as int),
                    name@,
                ),
            decreases i,
        {
            i = i - 1;
            if str_eq(self.entries[i].0.as_str(), name) {
                proof {
                    let pre = self@.subrange(0, (i + 1) as int);
                    assert(pre.last() == self@[i as int]);
                }
                return self.entries[i].1.clone();
            }
            proof {
                let pre = self@.subrange(0, (i + 1) as int);
                assert(pre.last() == self@[i as int]);
                assert(pre.drop_last() =~= self@.subrange(0, i as int));
            }
        }
        proof {
            assert(self@.subrange(0, 0) =~= Seq::<(Seq<char>, Seq<char>)>::empty());
        }
        String::new()
    }
}

/// How variable references and decoration are treated during
/// tokenization: kept verbatim, or stripped and substituted through a
/// `VariableMap`.
pub enum ParameterStrategy {
    Ignore,
    Mapped(VariableMap),
}

impl ParameterStrategy {
    /// The strategy that reproduces the input text of each token.
    pub fn ignore() -> (r: ParameterStrategy)
        ensures
            r is Ignore,
    {
        ParameterStrategy::Ignore
    }

    /// The strategy that substitutes variables through the given table.
    pub fn map(vars: VariableMap) -> (r: ParameterStrategy)
        ensures
            r == ParameterStrategy::Mapped(vars),
    {
        ParameterStrategy::Mapped(vars)
    }
}

/// Abstract value of a strategy: whether it substitutes, and through
/// which table.
pub enum StrategyV {
    Ignore,
    Mapped(Seq<(Seq<char>, Seq<char>)>),
}

impl View for ParameterStrategy {
    type V = StrategyV;

    open spec fn view(&self) -> StrategyV {
        match self {
            ParameterStrategy::Ignore => StrategyV::Ignore,
            ParameterStrategy::Mapped(vm) => StrategyV::Mapped(vm@),
        }
    }
}

/// Prefix a parsing outcome's token with `prefix`, leaving a failure
/// unchanged.
pub open spec fn spec_prepend(prefix: Seq<char>, r: (int, Option<Seq<char>>)) -> (
    int,
    Option<Seq<char>>,
) {
    match r.1 {
        Option::None => r,
        Option::Some(t) => (r.0, Option::Some(prefix + t)),
    }
}

/// First position at or after `pos` holding a non-whitespace character,
/// or the end of input.
pub open spec fn spec_skip_ws(chars: Seq<char>, pos: int) -> int
    decreases chars.len() - pos when 0 <= pos
{
    if pos >= chars.len() {
        chars.len() as int
    } else if spec_is_space(chars[pos]) {
        spec_skip_ws(chars, pos + 1)
    } else {
        pos
    }
}

pub proof fn lemma_skip_ws_range(chars: Seq<char>, pos: int)
    requires
        0 <= pos <= chars.len(),
    ensures
        pos <= spec_skip_ws(chars, pos) <= chars.len(),
    decreases chars.len() - pos,
{
    if pos < chars.len() && spec_is_space(chars[pos]) {
        lemma_skip_ws_range(chars, pos + 1);
    }
}

/// End of the maximal run of identifier characters beginning at `pos`.
pub open spec fn spec_ident_end(chars: Seq<char>, pos: int) -> int
    decreases chars.len() - pos when 0 <= pos
{
    if pos >= chars.len() {
        pos
    } else if spec_is_ident_char(chars[pos]) {
        spec_ident_end(chars, pos + 1)
    } else {
        pos
    }
}

pub proof fn lemma_ident_end_range(chars: Seq<char>, pos: int)
    requires
        0 <= pos <= chars.len(),
    ensures
        pos <= spec_ident_end(chars, pos) <= chars.len(),
    decreases chars.len() - pos,
{
    if pos < chars.len() && spec_is_ident_char(chars[pos]) {
        lemma_ident_end_range(chars, pos + 1);
    }
}

/// Outcome of scanning a variable reference whose `$` stands at `pos`.
/// Under `Ignore` the `$` is emitted verbatim.  Under the mapping
/// strategy, `${...}` resolves the enclosed text (failing if the brace
/// never closes), a non-empty run of identifier characters resolves
/// that name, and a bare `$` is emitted verbatim.
pub open spec fn spec_dollar(chars: Seq<char>, pos: int, s: StrategyV) -> (
    int,
    Option<Seq<char>>,
) {
    match s {
        StrategyV::Ignore => (pos + 1, Option::Some(seq!['$'])),
        StrategyV::Mapped(vm) => {
            if pos + 1 < chars.len() && chars[pos + 1] == '{' {
                let close = spec_find_char(chars, pos + 2, '}');
                if close >= chars.len() {
                    (pos, Option::None)
                } else {
                    (close + 1, Option::Some(spec_lookup(vm, chars.subrange(pos + 2, close))))
                }
            } else {
                let e = spec_ident_end(chars, pos + 1);
                if e == pos + 1 {
                    (pos + 1, Option::Some(seq!['$']))
                } else {
                    (e, Option::Some(spec_lookup(vm, chars.subrange(pos + 1, e))))
                }
            }
        },
    }
}

/// A successful variable reference always advances past the `$`, and
/// never past the end of input.
pub proof fn lemma_dollar_range(chars: Seq<char>, pos: int, s: StrategyV)
    requires
        0 <= pos < chars.len(),
    ensures
        ({
            let (e, t) = spec_dollar(chars, pos, s);
            &&& t is Some ==> pos < e <= chars.len()
            &&& t is None ==> e == pos
        }),
{
    match s {
        StrategyV::Ignore => {},
        StrategyV::Mapped(_) => {
            if pos + 1 < chars.len() && chars[pos + 1] == '{' {
                lemma_find_char_range(chars, pos + 2, '}');
            } else {
                lemma_ident_end_range(chars, pos + 1);
            }
        },
    }
}

/// Outcome of scanning a single-quoted section whose opening quote
/// stands at `pos`: the text up to the matching quote, copied
/// literally, decorated with the quotes themselves under `Ignore`; a
/// failure if the quote never closes.
pub open spec fn spec_single_quote(chars: Seq<char>, pos: int, s: StrategyV) -> (
    int,
    Option<Seq<char>>,
) {
    let close = spec_find_char(chars, pos + 1, '\'');
    if close >= chars.len() {
        (pos, Option::None)
    } else {
        let content = chars.subrange(pos + 1, close);
        if s is Ignore {
            (close + 1, Option::Some(seq!['\''] + content + seq!['\'']))
        } else {
            (close + 1, Option::Some(content))
        }
    }
}

pub proof fn lemma_single_quote_range(chars: Seq<char>, pos: int, s: StrategyV)
    requires
        0 <= pos < chars.len(),
    ensures
        ({
            let (e, t) = spec_single_quote(chars, pos, s);
            &&& t is Some ==> pos < e <= chars.len()
            &&& t is None ==> e == pos
        }),
{
    lemma_find_char_range(chars, pos + 1, '\'');
}

/// Outcome of scanning the inside of a double-quoted section from
/// `pos`, where `qpos` is the position of the opening quote (reported
/// on an unterminated section).  `\"` and `\$` unescape, `\` before a
/// line break continues the line, any other `\` is kept, and `$`
/// starts a variable reference.
pub open spec fn spec_dquote_body(
    chars: Seq<char>,
    pos: int,
    s: StrategyV,
    qpos: int,
) -> (int, Option<Seq<char>>)
    decreases chars.len() - pos when 0 <= pos
{
    if pos >= chars.len() {
        (qpos, Option::None)
    } else {
        let c = chars[pos];
        if c == '"' {
            if s is Ignore {
                (pos + 1, Option::Some(seq!['"']))
            } else {
                (pos + 1, Option::Some(Seq::empty()))
            }
        } else if c == '\\' {
            if pos + 1 >= chars.len() {
                (qpos, Option::None)
            } else {
                let c2 = chars[pos + 1];
                if c2 == '"' || c2 == '$' {
                    spec_prepend(
                        if s is Ignore {
                            seq!['\\', c2]
                        } else {
                            seq![c2]
                        },
                        spec_dquote_body(chars, pos + 2, s, qpos),
                    )
                } else if c2 == '\n' || c2 == '\r' {
                    spec_prepend(
                        if s is Ignore {
                            seq!['\\', c2]
                        } else {
                            Seq::empty()
                        },
                        spec_dquote_body(chars, pos + 2, s, qpos),
                    )
                } else {
                    spec_prepend(seq!['\\'], spec_dquote_body(chars, pos + 1, s, qpos))
                }
            }
        } else if c == '$' {
            let (i, piece) = spec_dollar(chars, pos, s);
            match piece {
                Option::None => (i, Option::None),
                Option::Some(p) => if pos < i <= chars.len() {
                    spec_prepend(p, spec_dquote_body(chars, i, s, qpos))
                } else {
                    (i, Option::None)
                },
            }
        } else {
            spec_prepend(seq![c], spec_dquote_body(chars, pos + 1, s, qpos))
        }
    }
}

pub proof fn lemma_dquote_body_range(chars: Seq<char>, pos: int, s: StrategyV, qpos: int)
    requires
        0 <= pos <= chars.len(),
        0 <= qpos <= chars.len(),
    ensures
        ({
            let (e, t) = spec_dquote_body(chars, pos, s, qpos);
            &&& t is Some ==> pos < e <= chars.len()
            &&& 0 <= e <= chars.len()
        }),
    decreases chars.len() - pos,
{
    if pos < chars.len() {
        let c = chars[pos];
        if c == '"' {
        } else if c == '\\' {
            if pos + 1 < chars.len() {
                let c2 = chars[pos + 1];
                if c2 == '"' || c2 == '$' || c2 == '\n' || c2 == '\r' {
                    lemma_dquote_body_range(chars, pos + 2, s, qpos);
                } else {
                    lemma_dquote_body_range(chars, pos + 1, s, qpos);
                }
            }
        } else if c == '$' {
            lemma_dollar_range(chars, pos, s);
            let (i, piece) = spec_dollar(chars, pos, s);
            if piece is Some && pos < i <= chars.len() {
                lemma_dquote_body_range(chars, i, s, qpos);
            }
        } else {
            lemma_dquote_body_range(chars, pos + 1, s, qpos);
        }
    }
}

/// Outcome of scanning a double-quoted section whose opening quote
/// stands at `pos`.
pub open spec fn spec_double_quote(chars: Seq<char>, pos: int, s: StrategyV) -> (
    int,
    Option<Seq<char>>,
) {
    spec_prepend(
        if s is Ignore {
            seq!['"']
        } else {
            Seq::empty()
        },
        spec_dquote_body(chars, pos + 1, s, pos),
    )
}

pub proof fn lemma_double_quote_range(chars: Seq<char>, pos: int, s: StrategyV)
    requires
        0 <= pos < chars.len(),
    ensures
        ({
            let (e, t) = spec_double_quote(chars, pos, s);
            &&& t is Some ==> pos < e <= chars.len()
            &&& 0 <= e <= chars.len()
        }),
{
    lemma_dquote_body_range(chars, pos + 1, s, pos);
}

/// Outcome of scanning one token from the non-whitespace position
/// `pos`; `opos` is the position the overall call started from
/// (reported when the input ends in a bare escape).  The token ends at
/// the first top-level whitespace or at the end of input.
pub open spec fn spec_token_body(chars: Seq<char>, pos: int, s: StrategyV, opos: int) -> (
    int,
    Option<Seq<char>>,
)
    decreases chars.len() - pos when 0 <= pos
{
    if pos >= chars.len() {
        (pos, Option::Some(Seq::empty()))
    } else {
        let c = chars[pos];
        if spec_is_space(c) {
            (pos, Option::Some(Seq::empty()))
        } else if c == '$' {
            let (i, piece) = spec_dollar(chars, pos, s);
            match piece {
                Option::None => (i, Option::None),
                Option::Some(p) => if pos < i <= chars.len() {
                    spec_prepend(p, spec_token_body(chars, i, s, opos))
                } else {
                    (i, Option::None)
                },
            }
        } else if c == '\'' {
            let (i, piece) = spec_single_quote(chars, pos, s);
            match piece {
                Option::None => (i, Option::None),
                Option::Some(p) => if pos < i <= chars.len() {
                    spec_prepend(p, spec_token_body(chars, i, s, opos))
                } else {
                    (i, Option::None)
                },
            }
        } else if c == '"' {
            let (i, piece) = spec_double_quote(chars, pos, s);
            match piece {
                Option::None => (i, Option::None),
                Option::Some(p) => if pos < i <= chars.len() {
                    spec_prepend(p, spec_token_body(chars, i, s, opos))
                } else {
                    (i, Option::None)
                },
            }
        } else if c == '\\' {
            if pos + 1 >= chars.len() {
                (opos, Option::None)
            } else {
                let c2 = chars[pos + 1];
                if c2 == '\n' || c2 == '\r' {
                    spec_prepend(
                        if s is Ignore {
                            seq!['\\', c2]
                        } else {
                            Seq::empty()
                        },
                        spec_token_body(chars, pos + 2, s, opos),
                    )
                } else {
                    spec_prepend(
                        if s is Ignore {
                            seq!['\\', c2]
                        } else {
                            seq![c2]
                        },
                        spec_token_body(chars, pos + 2, s, opos),
                    )
                }
            }
        } else {
            spec_prepend(seq![c], spec_token_body(chars, pos + 1, s, opos))
        }
    }
}

pub proof fn lemma_token_body_range(chars: Seq<char>, pos: int, s: StrategyV, opos: int)
    requires
        0 <= pos <= chars.len(),
        0 <= opos <= chars.len(),
    ensures
        ({
            let (e, t) = spec_token_body(chars, pos, s, opos);
            &&& t is Some ==> pos <= e <= chars.len() && (t->Some_0.len() > 0 ==> pos < e)
            &&& 0 <= e <= chars.len()
        }),
    decreases chars.len() - pos,
{
    if pos < chars.len() {
        let c = chars[pos];
        if spec_is_space(c) {
        } else if c == '$' {
            lemma_dollar_range(chars, pos, s);
            let (i, piece) = spec_dollar(chars, pos, s);
            if piece is Some && pos < i <= chars.len() {
                lemma_token_body_range(chars, i, s, opos);
            }
        } else if c == '\'' {
            lemma_single_quote_range(chars, pos, s);
            let (i, piece) = spec_single_quote(chars, pos, s);
            if piece is Some && pos < i <= chars.len() {
                lemma_token_body_range(chars, i, s, opos);
            }
        } else if c == '"' {
            lemma_double_quote_range(chars, pos, s);
            let (i, piece) = spec_double_quote(chars, pos, s);
            if piece is Some && pos < i <= chars.len() {
                lemma_token_body_range(chars, i, s, opos);
            }
        } else if c == '\\' {
            if pos + 1 < chars.len() {
                lemma_token_body_range(chars, pos + 2, s, opos);
            }
        } else {
            lemma_token_body_range(chars, pos + 1, s, opos);
        }
    }
}

/// Outcome of extracting the next token starting at `pos`: leading
/// whitespace is skipped, then one token is scanned.  At the end of
/// input (or on pure whitespace) the token is empty.
pub open spec fn spec_parse_token(chars: Seq<char>, pos: int, s: StrategyV) -> (
    int,
    Option<Seq<char>>,
) {
    spec_token_body(chars, spec_skip_ws(chars, pos), s, pos)
}

pub proof fn lemma_parse_token_range(chars: Seq<char>, pos: int, s: StrategyV)
    requires
        0 <= pos <= chars.len(),
    ensures
        ({
            let (e, t) = spec_parse_token(chars, pos, s);
            &&& t is Some ==> pos <= e <= chars.len() && (t->Some_0.len() > 0 ==> pos < e)
            &&& 0 <= e <= chars.len()
        }),
{
    lemma_skip_ws_range(chars, pos);
    lemma_token_body_range(chars, spec_skip_ws(chars, pos), s, pos);
}

/// The whole sequence of tokens from `pos` on: tokens are extracted
/// repeatedly until an empty one marks the end; a scanning failure
/// anywhere fails the whole tokenization.
pub open spec fn spec_token_stream(chars: Seq<char>, pos: int, s: StrategyV) -> Option<
    Seq<Seq<char>>,
>
    decreases chars.len() - pos when 0 <= pos
{
    let (e, r) = spec_parse_token(chars, pos, s);
    match r {
        Option::None => Option::None,
        Option::Some(t) => if t.len() == 0 {
            Option::Some(Seq::empty())
        } else if pos < e <= chars.len() {
            match spec_token_stream(chars, e, s) {
                Option::None => Option::None,
                Option::Some(rest) => Option::Some(seq![t] + rest),
            }
        } else {
            Option::None
        },
    }
}

/// A `Some` token outcome in text form matches the spec-level outcome.
pub open spec fn token_matches(o: Option<String>, t: Option<Seq<char>>) -> bool {
    match (o, t) {
        (Option::Some(a), Option::Some(b)) => a@ == b,
        (Option::None, Option::None) => true,
        _ => false,
    }
}

fn parse_dollar_parameters(chars: &Vec<char>, pos: usize, strategy: &ParameterStrategy) -> (r: (
    usize,
    Option<String>,
))
    requires
        pos < chars@.len(),
    ensures
        ({
            let (e, t) = spec_dollar(chars@, pos as int, strategy@);
            r.0 as int == e && token_matches(r.1, t)
        }),
{
    let _bound = chars.len();
    match strategy {
        ParameterStrategy::Ignore => (pos + 1, Option::Some(char_string('$'))),
        ParameterStrategy::Mapped(vm) => {
            if pos + 1 < chars.len() && chars[pos + 1] == '{' {
                let close = find_char(chars, pos + 2, '}');
                if close == chars.len() {
                    (pos, Option::None)
                } else {
                    let name = chars_range_to_string(chars, pos + 2, close);
                    (close + 1, Option::Some(vm.resolve(name.as_str())))
                }
            } else {
                let mut e: usize = pos + 1;
                while e < chars.len() && is_ident_char(chars[e])
                    invariant
                        pos + 1 <= e <= chars@.len(),
                        spec_ident_end(chars@, pos + 1 as int) == spec_ident_end(chars@, e as int),
                    decreases chars@.len() - e,
                {
                    e = e + 1;
                }
                if e == pos + 1 {
                    (pos + 1, Option::Some(char_string('$')))
                } else {
                    let name = chars_range_to_string(chars, pos + 1, e);
                    (e, Option::Some(vm.resolve(name.as_str())))
                }
            }
        },
    }
}

fn parse_single_quote(chars: &Vec<char>, pos: usize, strategy: &ParameterStrategy) -> (r: (
    usize,
    Option<String>,
))
    requires
        pos < chars@.len(),
    ensures
        ({
            let (e, t) = spec_single_quote(chars@, pos as int, strategy@);
            r.0 as int == e && token_matches(r.1, t)
        }),
{
    let _bound = chars.len();
    let close = find_char(chars, pos + 1, '\'');
    if close == chars.len() {
        (pos, Option::None)
    } else {
        let content = chars_range_to_string(chars, pos + 1, close);
        match strategy {
            ParameterStrategy::Ignore => {
                let quoted = char_string('\'').concat(content.as_str()).concat("'");
                proof {
                    reveal_strlit("'");
                    assert(quoted@ =~= seq!['\''] + content@ + seq!['\'']);
                }
                (close + 1, Option::Some(quoted))
            },
            ParameterStrategy::Mapped(_) => (close + 1, Option::Some(content)),
        }
    }
}

fn parse_dquote_body(
    chars: &Vec<char>,
    pos: usize,
    strategy: &ParameterStrategy,
    qpos: usize,
) -> (r: (usize, Option<String>))
    requires
        pos <= chars@.len(),
        qpos <= chars@.len(),
    ensures
        ({
            let (e, t) = spec_dquote_body(chars@, pos as int, strategy@, qpos as int);
            r.0 as int == e && token_matches(r.1, t)
        }),
    decreases chars@.len() - pos,
{
    if pos == chars.len() {
        return (qpos, Option::None);
    }
    let c = chars[pos];
    if c == '"' {
        match strategy {
            ParameterStrategy::Ignore => (pos + 1, Option::Some(char_string('"'))),
            ParameterStrategy::Mapped(_) => (pos + 1, Option::Some(String::new())),
        }
    } else if c == '\\' {
        if pos + 1 == chars.len() {
            (qpos, Option::None)
        } else {
            let c2 = chars[pos + 1];
            if c2 == '"' || c2 == '$' {
                let rest = parse_dquote_body(chars, pos + 2, strategy, qpos);
                match rest.1 {
                    Option::None => (rest.0, Option::None),
                    Option::Some(t) => {
                        let piece = match strategy {
                            ParameterStrategy::Ignore => {
                                let mut p = char_string('\\');
                                p.push(c2);
                                proof {
                                    assert(p@ =~= seq!['\\', c2]);
                                }
                                p
                            },
                            ParameterStrategy::Mapped(_) => char_string(c2),
                        };
                        (rest.0, Option::Some(piece.concat(t.as_str())))
                    },
                }
            } else if c2 == '\n' || c2 == '\r' {
                let rest = parse_dquote_body(chars, pos + 2, strategy, qpos);
                match rest.1 {
                    Option::None => (rest.0, Option::None),
                    Option::Some(t) => match strategy {
                        ParameterStrategy::Ignore => {
                            let mut p = char_string('\\');
                            p.push(c2);
                            proof {
                                assert(p@ =~= seq!['\\', c2]);
                            }
                            (rest.0, Option::Some(p.concat(t.as_str())))
                        },
                        ParameterStrategy::Mapped(_) => (rest.0, Option::Some(t)),
                    },
                }
            } else {
                let rest = parse_dquote_body(chars, pos + 1, strategy, qpos);
                match rest.1 {
                    Option::None => (rest.0, Option::None),
                    Option::Some(t) => (rest.0, Option::Some(char_string('\\').concat(t.as_str()))),
                }
            }
        }
    } else if c == '$' {
        let dp = parse_dollar_parameters(chars, pos, strategy);
        proof {
            lemma_dollar_range(chars@, pos as int, strategy@);
        }
        match dp.1 {
            Option::None => (dp.0, Option::None),
            Option::Some(p) => {
                let rest = parse_dquote_body(chars, dp.0, strategy, qpos);
                match rest.1 {
                    Option::None => (rest.0, Option::None),
                    Option::Some(t) => (rest.0, Option::Some(p.concat(t.as_str()))),
                }
            },
        }
    } else {
        let rest = parse_dquote_body(chars, pos + 1, strategy, qpos);
        match rest.1 {
            Option::None => (rest.0, Option::None),
            Option::Some(t) => (rest.0, Option::Some(char_string(c).concat(t.as_str()))),
        }
    }
}

fn parse_double_quote(chars: &Vec<char>, pos: usize, strategy: &ParameterStrategy) -> (r: (
    usize,
    Option<String>,
))
    requires
        pos < chars@.len(),
    ensures
        ({
            let (e, t) = spec_double_quote(chars@, pos as int, strategy@);
            r.0 as int == e && token_matches(r.1, t)
        }),
{
    let _bound = chars.len();
    let inner = parse_dquote_body(chars, pos + 1, strategy, pos);
    match inner.1 {
        Option::None => (inner.0, Option::None),
        Option::Some(t) => match strategy {
            ParameterStrategy::Ignore => (inner.0, Option::Some(char_string('"').concat(t.as_str()))),
            ParameterStrategy::Mapped(_) => (inner.0, Option::Some(t)),
        },
    }
}

fn parse_token_body(
    chars: &Vec<char>,
    pos: usize,
    strategy: &ParameterStrategy,
    opos: usize,
) -> (r: (usize, Option<String>))
    requires
        pos <= chars@.len(),
        opos <= chars@.len(),
    ensures
        ({
            let (e, t) = spec_token_body(chars@, pos as int, strategy@, opos as int);
            r.0 as int == e && token_matches(r.1, t)
        }),
    decreases chars@.len() - pos,
{
    if pos == chars.len() {
        return (pos, Option::Some(String::new()));
    }
    let c = chars[pos];
    if is_space(c) {
        (pos, Option::Some(String::new()))
    } else if c == '$' {
        let dp = parse_dollar_parameters(chars, pos, strategy);
        proof {
            lemma_dollar_range(chars@, pos as int, strategy@);
        }
        match dp.1 {
            Option::None => (dp.0, Option::None),
            Option::Some(p) => {
                let rest = parse_token_body(chars, dp.0, strategy, opos);
                match rest.1 {
                    Option::None => (rest.0, Option::None),
                    Option::Some(t) => (rest.0, Option::Some(p.concat(t.as_str()))),
                }
            },
        }
    } else if c == '\'' {
        let sq = parse_single_quote(chars, pos, strategy);
        proof {
            lemma_single_quote_range(chars@, pos as int, strategy@);
        }
        match sq.1 {
            Option::None => (sq.0, Option::None),
            Option::Some(p) => {
                let rest = parse_token_body(chars, sq.0, strategy, opos);
                match rest.1 {
                    Option::None => (rest.0, Option::None),
                    Option::Some(t) => (rest.0, Option::Some(p.concat(t.as_str()))),
                }
            },
        }
    } else if c == '"' {
        let dq = parse_double_quote(chars, pos, strategy);
        proof {
            lemma_double_quote_range(chars@, pos as int, strategy@);
        }
        match dq.1 {
            Option::None => (dq.0, Option::None),
            Option::Some(p) => {
                let rest = parse_token_body(chars, dq.0, strategy, opos);
                match rest.1 {
                    Option::None => (rest.0, Option::None),
                    Option::Some(t) => (rest.0, Option::Some(p.concat(t.as_str()))),
                }
            },
        }
    } else if c == '\\' {
        if pos + 1 == chars.len() {
            (opos, Option::None)
        } else {
            let c2 = chars[pos + 1];
            let rest = parse_token_body(chars, pos + 2, strategy, opos);
            match rest.1 {
                Option::None => (rest.0, Option::None),
                Option::Some(t) => {
                    if c2 == '\n' || c2 == '\r' {
                        match strategy {
                            ParameterStrategy::Ignore => {
                                let mut p = char_string('\\');
                                p.push(c2);
                                proof {
                                    assert(p@ =~= seq!['\\', c2]);
                                }
                                (rest.0, Option::Some(p.concat(t.as_str())))
                            },
                            ParameterStrategy::Mapped(_) => (rest.0, Option::Some(t)),
                        }
                    } else {
                        match strategy {
                            ParameterStrategy::Ignore => {
                                let mut p = char_string('\\');
                                p.push(c2);
                                proof {
                                    assert(p@ =~= seq!['\\', c2]);
                                }
                                (rest.0, Option::Some(p.concat(t.as_str())))
                            },
                            ParameterStrategy::Mapped(_) => (rest.0, Option::Some(
                                char_string(c2).concat(t.as_str()),
                            )),
                        }
                    }
                },
            }
        }
    } else {
        let rest = parse_token_body(chars, pos + 1, strategy, opos);
        match rest.1 {
            Option::None => (rest.0, Option::None),
            Option::Some(t) => (rest.0, Option::Some(char_string(c).concat(t.as_str()))),
        }
    }
}

/// Skip leading whitespace, then scan one token.  The returned
/// position is where extraction of the next token should resume; the
/// token is `None` exactly when the input is malformed (unterminated
/// quote or brace, or a trailing bare escape).
fn parse_whole_string(chars: &Vec<char>, original_pos: usize, strategy: &ParameterStrategy) -> (r:
    (usize, Option<String>))
    requires
        original_pos <= chars@.len(),
    ensures
        ({
            let (e, t) = spec_parse_token(chars@, original_pos as int, strategy@);
            r.0 as int == e && token_matches(r.1, t)
        }),
{
    let mut i: usize = original_pos;
    while i < chars.len() && is_space(chars[i])
        invariant
            original_pos <= i <= chars@.len(),
            spec_skip_ws(chars@, original_pos as int) == spec_skip_ws(chars@, i as int),
        decreases chars@.len() - i,
    {
        i = i + 1;
    }
    parse_token_body(chars, i, strategy, original_pos)
}

/// Token extraction state over one input string: repeated calls to
/// `next` yield the input's tokens from left to right.
pub struct ArgumentIterator<'a> {
    strategy: &'a ParameterStrategy,
    chars: Vec<char>,
    index: usize,
}

impl<'a> ArgumentIterator<'a> {
    /// The characters of the input this iterator scans.
    pub closed spec fn spec_chars(&self) -> Seq<char> {
        self.chars@
    }

    /// The position extraction resumes from.
    pub closed spec fn spec_index(&self) -> int {
        self.index as int
    }

    /// The strategy the iterator scans under.
    pub closed spec fn spec_strategy(&self) -> StrategyV {
        self.strategy@
    }

    /// The resume position never lies beyond the input.
    pub closed spec fn wf(&self) -> bool {
        self.index <= self.chars@.len()
    }

    /// Extract the next token.  At the end of input the token is empty;
    /// `None` reports a malformed input.
    pub fn next(&mut self) -> (r: Option<String>)
        requires
            old(self).wf(),
        ensures
            ({
                let (e, t) = spec_parse_token(
                    old(self).spec_chars(),
                    old(self).spec_index(),
                    old(self).spec_strategy(),
                );
                &&& final(self).spec_chars() == old(self).spec_chars()
                &&& final(self).spec_strategy() == old(self).spec_strategy()
                &&& final(self).spec_index() == e
                &&& token_matches(r, t)
                &&& final(self).wf()
            }),
    {
        let (index, result) = parse_whole_string(&self.chars, self.index, self.strategy);
        proof {
            lemma_parse_token_range(self.chars@, self.index as int, self.strategy@);
        }
        self.index = index;
        result
    }
}

/// Begin tokenizing a string under a strategy.
pub fn parse<'a>(string: &str, strategy: &'a ParameterStrategy) -> (it: ArgumentIterator<'a>)
    ensures
        it.spec_chars() == string@,
        it.spec_index() == 0,
        it.spec_strategy() == strategy@,
        it.wf(),
{
    ArgumentIterator { strategy, chars: str_to_chars(string), index: 0 }
}

/// The views of a vector of strings.
pub open spec fn strings_view(v: Seq<String>) -> Seq<Seq<char>> {
    v.map_values(|x: String| x@)
}

/// Tokenize a whole string: all tokens up to the terminating empty
/// one, or `None` if the input is malformed.
pub fn tokenize(string: &str, strategy: &ParameterStrategy) -> (r: Option<Vec<String>>)
    ensures
        ({
            match (r, spec_token_stream(string@, 0, strategy@)) {
                (Option::Some(v), Option::Some(ts)) => strings_view(v@) == ts,
                (Option::None, Option::None) => true,
                _ => false,
            }
        }),
{
    let chars = str_to_chars(string);
    let mut acc: Vec<String> = Vec::new();
    let mut pos: usize = 0;
    proof {
        assert(strings_view(acc@) =~= Seq::<Seq<char>>::empty());
        assert(strings_view(acc@) + spec_token_stream(string@, 0, strategy@)->Some_0
            =~= spec_token_stream(string@, 0, strategy@)->Some_0);
    }
    loop
        invariant
            pos <= chars@.len(),
            chars@ == string@,
            ({
                match spec_token_stream(string@, 0, strategy@) {
                    Option::Some(all) => {
                        match spec_token_stream(string@, pos as int, strategy@) {
                            Option::Some(rest) => all == strings_view(acc@) + rest,
                            Option::None => false,
                        }
                    },
                    Option::None => spec_token_stream(string@, pos as int, strategy@) is None,
                }
            }),
        decreases chars@.len() - pos,
    {
        let ghost prev = pos as int;
        let (e, t) = parse_whole_string(&chars, pos, strategy);
        proof {
            lemma_parse_token_range(chars@, pos as int, strategy@);
        }
        match t {
            Option::None => {
                return Option::None;
            },
            Option::Some(tok) => {
                if tok.as_str().unicode_len() == 0 {
                    proof {
                        assert(spec_token_stream(string@, prev, strategy@) == Option::Some(
                            Seq::<Seq<char>>::empty(),
                        ));
                        assert(strings_view(acc@) + Seq::<Seq<char>>::empty() =~= strings_view(
                            acc@,
                        ));
                    }
                    return Option::Some(acc);
                }
                let ghost old_acc = acc@;
                let ghost tokv = tok@;
                acc.push(tok);
                pos = e;
                proof {
                    assert(strings_view(acc@) =~= strings_view(old_acc).push(tokv));
                    let se = spec_token_stream(string@, pos as int, strategy@);
                    match se {
                        Option::Some(rest) => {
                            assert(spec_token_stream(string@, prev, strategy@) == Option::Some(
                                seq![tokv] + rest,
                            ));
                            assert(strings_view(old_acc) + (seq![tokv] + rest) =~= strings_view(
                                acc@,
                            ) + rest);
                        },
                        Option::None => {
                            assert(spec_token_stream(string@, prev, strategy@) is None);
                        },
                    }
                }
            },
        }
    }
}


/// Every character that token extraction skips before a token is
/// whitespace.
pub proof fn lemma_skip_ws_all_space(chars: Seq<char>, pos: int)
    requires
        0 <= pos <= chars.len(),
    ensures
        forall|j: int|
            pos <= j < spec_skip_ws(chars, pos) ==> spec_is_space(#[trigger] chars[j]),
    decreases chars.len() - pos,
{
    if pos < chars.len() && spec_is_space(chars[pos]) {
        lemma_skip_ws_all_space(chars, pos + 1);
    }
}

proof fn lemma_ignore_dollar_verbatim(chars: Seq<char>, pos: int)
    requires
        0 <= pos < chars.len(),
        chars[pos] == '$',
    ensures
        ({
            let (e, t) = spec_dollar(chars, pos, StrategyV::Ignore);
            t == Option::Some(chars.subrange(pos, e))
        }),
{
    assert(seq!['$'] =~= chars.subrange(pos, pos + 1));
}

proof fn lemma_ignore_single_quote_verbatim(chars: Seq<char>, pos: int)
    requires
        0 <= pos < chars.len(),
        chars[pos] == '\'',
    ensures
        ({
            let (e, t) = spec_single_quote(chars, pos, StrategyV::Ignore);
            t matches Option::Some(tok) ==> tok == chars.subrange(pos, e)
        }),
{
    lemma_find_char_range(chars, pos + 1, '\'');
    let close = spec_find_char(chars, pos + 1, '\'');
    if close < chars.len() {
        assert(seq!['\''] + chars.subrange(pos + 1, close) + seq!['\''] =~= chars.subrange(
            pos,
            close + 1,
        ));
    }
}

proof fn lemma_ignore_dquote_body_verbatim(chars: Seq<char>, pos: int, qpos: int)
    requires
        0 <= pos <= chars.len(),
        0 <= qpos <= chars.len(),
    ensures
        ({
            let (e, t) = spec_dquote_body(chars, pos, StrategyV::Ignore, qpos);
            t matches Option::Some(tok) ==> tok == chars.subrange(pos, e)
        }),
    decreases chars.len() - pos,
{
    let s = StrategyV::Ignore;
    let (e, t) = spec_dquote_body(chars, pos, s, qpos);
    if pos < chars.len() && t is Some {
        let c = chars[pos];
        if c == '"' {
            assert(seq!['"'] =~= chars.subrange(pos, pos + 1));
        } else if c == '\\' {
            if pos + 1 < chars.len() {
                let c2 = chars[pos + 1];
                if c2 == '"' || c2 == '$' || c2 == '\n' || c2 == '\r' {
                    lemma_ignore_dquote_body_verbatim(chars, pos + 2, qpos);
                    lemma_dquote_body_range(chars, pos + 2, s, qpos);
                    let (e2, t2) = spec_dquote_body(chars, pos + 2, s, qpos);
                    assert(seq!['\\', c2] =~= chars.subrange(pos, pos + 2));
                    if t2 is Some {
                        assert(chars.subrange(pos, pos + 2) + chars.subrange(pos + 2, e2)
                            =~= chars.subrange(pos, e2));
                    }
                } else {
                    lemma_ignore_dquote_body_verbatim(chars, pos + 1, qpos);
                    lemma_dquote_body_range(chars, pos + 1, s, qpos);
                    let (e2, t2) = spec_dquote_body(chars, pos + 1, s, qpos);
                    assert(seq!['\\'] =~= chars.subrange(pos, pos + 1));
                    if t2 is Some {
                        assert(chars.subrange(pos, pos + 1) + chars.subrange(pos + 1, e2)
                            =~= chars.subrange(pos, e2));
                    }
                }
            }
        } else if c == '$' {
            lemma_ignore_dollar_verbatim(chars, pos);
            lemma_dollar_range(chars, pos, s);
            let (i, piece) = spec_dollar(chars, pos, s);
            if piece is Some && pos < i <= chars.len() {
                lemma_ignore_dquote_body_verbatim(chars, i, qpos);
                lemma_dquote_body_range(chars, i, s, qpos);
                let (e2, t2) = spec_dquote_body(chars, i, s, qpos);
                if t2 is Some {
                    assert(chars.subrange(pos, i) + chars.subrange(i, e2) =~= chars.subrange(
                        pos,
                        e2,
                    ));
                }
            }
        } else {
            lemma_ignore_dquote_body_verbatim(chars, pos + 1, qpos);
            lemma_dquote_body_range(chars, pos + 1, s, qpos);
            let (e2, t2) = spec_dquote_body(chars, pos + 1, s, qpos);
            assert(seq![c] =~= chars.subrange(pos, pos + 1));
            if t2 is Some {
                assert(chars.subrange(pos, pos + 1) + chars.subrange(pos + 1, e2)
                    =~= chars.subrange(pos, e2));
            }
        }
    }
}

proof fn lemma_ignore_double_quote_verbatim(chars: Seq<char>, pos: int)
    requires
        0 <= pos < chars.len(),
        chars[pos] == '"',
    ensures
        ({
            let (e, t) = spec_double_quote(chars, pos, StrategyV::Ignore);
            t matches Option::Some(tok) ==> tok == chars.subrange(pos, e)
        }),
{
    let s = StrategyV::Ignore;
    lemma_ignore_dquote_body_verbatim(chars, pos + 1, pos);
    lemma_dquote_body_range(chars, pos + 1, s, pos);
    let (e2, t2) = spec_dquote_body(chars, pos + 1, s, pos);
    if t2 is Some {
        assert(seq!['"'] =~= chars.subrange(pos, pos + 1));
        assert(chars.subrange(pos, pos + 1) + chars.subrange(pos + 1, e2) =~= chars.subrange(
            pos,
            e2,
        ));
    }
}

proof fn lemma_ignore_token_body_verbatim(chars: Seq<char>, pos: int, opos: int)
    requires
        0 <= pos <= chars.len(),
        0 <= opos <= chars.len(),
    ensures
        ({
            let (e, t) = spec_token_body(chars, pos, StrategyV::Ignore, opos);
            t matches Option::Some(tok) ==> tok == chars.subrange(pos, e)
        }),
    decreases chars.len() - pos,
{
    let s = StrategyV::Ignore;
    let (e, t) = spec_token_body(chars, pos, s, opos);
    if pos >= chars.len() || spec_is_space(chars[pos]) {
        assert(Seq::<char>::empty() =~= chars.subrange(pos, pos));
    } else if t is Some {
        let c = chars[pos];
        if c == '$' {
            lemma_ignore_dollar_verbatim(chars, pos);
            lemma_dollar_range(chars, pos, s);
            let (i, piece) = spec_dollar(chars, pos, s);
            if piece is Some && pos < i <= chars.len() {
                lemma_ignore_token_body_verbatim(chars, i, opos);
                lemma_token_body_range(chars, i, s, opos);
                let (e2, t2) = spec_token_body(chars, i, s, opos);
                if t2 is Some {
                    assert(chars.subrange(pos, i) + chars.subrange(i, e2) =~= chars.subrange(
                        pos,
                        e2,
                    ));
                }
            }
        } else if c == '\'' {
            lemma_ignore_single_quote_verbatim(chars, pos);
            lemma_single_quote_range(chars, pos, s);
            let (i, piece) = spec_single_quote(chars, pos, s);
            if piece is Some && pos < i <= chars.len() {
                lemma_ignore_token_body_verbatim(chars, i, opos);
                lemma_token_body_range(chars, i, s, opos);
                let (e2, t2) = spec_token_body(chars, i, s, opos);
                if t2 is Some {
                    assert(chars.subrange(pos, i) + chars.subrange(i, e2) =~= chars.subrange(
                        pos,
                        e2,
                    ));
                }
            }
        } else if c == '"' {
            lemma_ignore_double_quote_verbatim(chars, pos);
            lemma_double_quote_range(chars, pos, s);
            let (i, piece) = spec_double_quote(chars, pos, s);
            if piece is Some && pos < i <= chars.len() {
                lemma_ignore_token_body_verbatim(chars, i, opos);
                lemma_token_body_range(chars, i, s, opos);
                let (e2, t2) = spec_token_body(chars, i, s, opos);
                if t2 is Some {
                    assert(chars.subrange(pos, i) + chars.subrange(i, e2) =~= chars.subrange(
                        pos,
                        e2,
                    ));
                }
            }
        } else if c == '\\' {
            if pos + 1 < chars.len() {
                let c2 = chars[pos + 1];
                lemma_ignore_token_body_verbatim(chars, pos + 2, opos);
                lemma_token_body_range(chars, pos + 2, s, opos);
                let (e2, t2) = spec_token_body(chars, pos + 2, s, opos);
                assert(seq!['\\', c2] =~= chars.subrange(pos, pos + 2));
                if t2 is Some {
                    assert(chars.subrange(pos, pos + 2) + chars.subrange(pos + 2, e2)
                        =~= chars.subrange(pos, e2));
                }
            }
        } else {
            lemma_ignore_token_body_verbatim(chars, pos + 1, opos);
            lemma_token_body_range(chars, pos + 1, s, opos);
            let (e2, t2) = spec_token_body(chars, pos + 1, s, opos);
            assert(seq![c] =~= chars.subrange(pos, pos + 1));
            if t2 is Some {
                assert(chars.subrange(pos, pos + 1) + chars.subrange(pos + 1, e2)
                    =~= chars.subrange(pos, e2));
            }
        }
    }
}

/// Under `Ignore`, extraction round-trips the input: a successful
/// token is exactly the text between the end of the skipped run and
/// the resume position — quote and escape characters verbatim — and
/// everything skipped before it is whitespace.
pub proof fn lemma_ignore_round_trip(chars: Seq<char>, pos: int)
    requires
        0 <= pos <= chars.len(),
    ensures
        ({
            let start = spec_skip_ws(chars, pos);
            let (e, t) = spec_parse_token(chars, pos, StrategyV::Ignore);
            &&& t matches Option::Some(tok) ==> tok == chars.subrange(start, e)
            &&& forall|j: int| pos <= j < start ==> spec_is_space(#[trigger] chars[j])
        }),
{
    lemma_skip_ws_range(chars, pos);
    lemma_skip_ws_all_space(chars, pos);
    lemma_ignore_token_body_verbatim(chars, spec_skip_ws(chars, pos), pos);
}

} // verus!

