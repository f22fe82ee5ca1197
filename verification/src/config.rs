//! License policy configuration and the SPDX expression engine that
//! evaluates simple or compound license expressions to a verdict.

use vstd::prelude::*;

use crate::models::PolicyVerdict;
use crate::text::{chars_of, chars_eq_str, copy_chars, is_space, is_space_char, slash_to_or,
    replace_slash_or};

verus! {

/// The action to take when a dependency's license matches a policy rule.
#[derive(Debug, Clone, Copy, PartialEq, Eq, Structural)]
pub enum PolicyAction {
    /// Dependency is compliant; no action needed.
    Pass,
    /// Dependency warrants review but does not fail the scan.
    Warn,
    /// Dependency violates policy; the caller should exit non-zero.
    Error,
}

/// The verdict corresponding to a policy action.
pub open spec fn spec_action_verdict(a: PolicyAction) -> PolicyVerdict {
    match a {
        PolicyAction::Pass => PolicyVerdict::Pass,
        PolicyAction::Warn => PolicyVerdict::Warn,
        PolicyAction::Error => PolicyVerdict::Error,
    }
}

impl PolicyAction {
    /// Convert to the corresponding [`PolicyVerdict`].
    pub fn to_verdict(&self) -> (v: PolicyVerdict)
        ensures
            v == spec_action_verdict(*self),
    {
        match self {
            PolicyAction::Pass => PolicyVerdict::Pass,
            PolicyAction::Warn => PolicyVerdict::Warn,
            PolicyAction::Error => PolicyVerdict::Error,
        }
    }
}

/// The action applied to any license not named by a rule.
pub fn default_policy_action() -> (a: PolicyAction)
    ensures
        a == PolicyAction::Warn,
{
    PolicyAction::Warn
}

/// Defines how licenses are evaluated.
pub struct PolicyConfig {
    /// Verdict applied to any license not named in `licenses`.
    pub default: PolicyAction,
    /// Per-license rules keyed by SPDX identifier; the first matching
    /// entry wins.
    pub licenses: Vec<(String, PolicyAction)>,
}

/// Root configuration structure.
pub struct Config {
    /// License policy rules.
    pub policy: PolicyConfig,
}

/// First-match lookup of an identifier in the rule table.
pub open spec fn rule_lookup(rules: Seq<(String, PolicyAction)>, id: Seq<char>) -> Option<
    PolicyAction,
>
    decreases rules.len(),
{
    if rules.len() == 0 {
        None
    } else if rules[0].0@ == id {
        Some(rules[0].1)
    } else {
        rule_lookup(rules.drop_first(), id)
    }
}

/// Verdict for a single identifier: its rule if any, else the default.
pub open spec fn spec_lookup_verdict(cfg: Config, id: Seq<char>) -> PolicyVerdict {
    match rule_lookup(cfg.policy.licenses@, id) {
        Some(a) => spec_action_verdict(a),
        None => spec_action_verdict(cfg.policy.default),
    }
}

/// Executable first-match rule lookup.
fn lookup_rule(config: &Config, id: &Vec<char>) -> (r: Option<PolicyAction>)
    ensures
        r == rule_lookup(config.policy.licenses@, id@),
{
    let rules = &config.policy.licenses;
    let mut i: usize = 0;
    proof {
        assert(rules@.skip(0) =~= rules@);
    }
    while i < rules.len()
        invariant
            i <= rules@.len(),
            rules@ == config.policy.licenses@,
            rule_lookup(rules@, id@) == rule_lookup(rules@.skip(i as int), id@),
        decreases rules@.len() - i,
    {
        if chars_eq_str(id, rules[i].0.as_str()) {
            proof {
                assert(rules@.skip(i as int)[0] == rules@[i as int]);
                assert(rules@.skip(i as int).len() > 0);
                assert(rule_lookup(rules@.skip(i as int), id@) == Some(rules@[i as int].1));
            }
            return Some(rules[i].1);
        }
        proof {
            assert(rules@.skip(i as int)[0] == rules@[i as int]);
            assert(rules@.skip(i as int).drop_first() =~= rules@.skip(i + 1));
        }
        i = i + 1;
    }
    proof {
        assert(rules@.skip(rules@.len() as int).len() == 0);
    }
    None
}

/// Look up a single (non-compound) SPDX identifier in the policy.
pub fn apply_policy_single(config: &Config, id: &Vec<char>) -> (v: PolicyVerdict)
    ensures
        v == spec_lookup_verdict(*config, id@),
{
    match lookup_rule(config, id) {
        Some(a) => a.to_verdict(),
        None => config.policy.default.to_verdict(),
    }
}

// ---------------------------------------------------------------------------
// Verdict lattice
// ---------------------------------------------------------------------------

/// Most permissive of two verdicts: Pass beats Warn beats Error.
pub open spec fn spec_verdict_or(a: PolicyVerdict, b: PolicyVerdict) -> PolicyVerdict {
    if a == PolicyVerdict::Pass || b == PolicyVerdict::Pass {
        PolicyVerdict::Pass
    } else if a == PolicyVerdict::Warn || b == PolicyVerdict::Warn {
        PolicyVerdict::Warn
    } else {
        PolicyVerdict::Error
    }
}

/// Most restrictive of two verdicts: Error beats Warn beats Pass.
pub open spec fn spec_verdict_and(a: PolicyVerdict, b: PolicyVerdict) -> PolicyVerdict {
    if a == PolicyVerdict::Error || b == PolicyVerdict::Error {
        PolicyVerdict::Error
    } else if a == PolicyVerdict::Warn || b == PolicyVerdict::Warn {
        PolicyVerdict::Warn
    } else {
        PolicyVerdict::Pass
    }
}

/// Most permissive (least severe) of two verdicts — `OR` semantics.
pub fn verdict_or(a: PolicyVerdict, b: PolicyVerdict) -> (r: PolicyVerdict)
    ensures
        r == spec_verdict_or(a, b),
{
    match (a, b) {
        (PolicyVerdict::Pass, _) | (_, PolicyVerdict::Pass) => PolicyVerdict::Pass,
        (PolicyVerdict::Warn, _) | (_, PolicyVerdict::Warn) => PolicyVerdict::Warn,
        _ => PolicyVerdict::Error,
    }
}

/// Most restrictive (most severe) of two verdicts — `AND` semantics.
pub fn verdict_and(a: PolicyVerdict, b: PolicyVerdict) -> (r: PolicyVerdict)
    ensures
        r == spec_verdict_and(a, b),
{
    match (a, b) {
        (PolicyVerdict::Error, _) | (_, PolicyVerdict::Error) => PolicyVerdict::Error,
        (PolicyVerdict::Warn, _) | (_, PolicyVerdict::Warn) => PolicyVerdict::Warn,
        _ => PolicyVerdict::Pass,
    }
}

/// Both verdict joins are commutative, and each returns one of its
/// arguments.
pub proof fn lemma_verdict_ops_commutative(a: PolicyVerdict, b: PolicyVerdict)
    ensures
        spec_verdict_or(a, b) == spec_verdict_or(b, a),
        spec_verdict_and(a, b) == spec_verdict_and(b, a),
        spec_verdict_or(a, b) == a || spec_verdict_or(a, b) == b,
        spec_verdict_and(a, b) == a || spec_verdict_and(a, b) == b,
{
}

// ---------------------------------------------------------------------------
// Tokenizer
// ---------------------------------------------------------------------------

/// Tokens of an SPDX license expression.
#[derive(Debug)]
pub enum Token {
    /// A license identifier.
    Id(Vec<char>),
    /// The `AND` operator.
    And,
    /// The `OR` operator.
    Or,
    /// The `WITH` operator.
    With,
    /// An opening parenthesis.
    LParen,
    /// A closing parenthesis.
    RParen,
}

/// Mathematical form of a token.
pub enum SpdxTok {
    /// A license identifier.
    Id(Seq<char>),
    /// The `AND` operator.
    And,
    /// The `OR` operator.
    Or,
    /// The `WITH` operator.
    With,
    /// An opening parenthesis.
    LParen,
    /// A closing parenthesis.
    RParen,
}

/// View of one token.
pub open spec fn tok_view(t: Token) -> SpdxTok {
    match t {
        Token::Id(v) => SpdxTok::Id(v@),
        Token::And => SpdxTok::And,
        Token::Or => SpdxTok::Or,
        Token::With => SpdxTok::With,
        Token::LParen => SpdxTok::LParen,
        Token::RParen => SpdxTok::RParen,
    }
}

/// View of a token list.
pub open spec fn toks_view(ts: Seq<Token>) -> Seq<SpdxTok> {
    ts.map_values(|t: Token| tok_view(t))
}

/// A character that continues an identifier word.
pub open spec fn is_word_char(c: char) -> bool {
    !is_space(c) && c != '(' && c != ')'
}

/// Length of the maximal identifier word at the front of `s`.
pub open spec fn word_len(s: Seq<char>) -> nat
    decreases s.len(),
{
    if s.len() == 0 || !is_word_char(s[0]) {
        0
    } else {
        1 + word_len(s.drop_first())
    }
}

/// The token a bare word stands for.
pub open spec fn word_tok(w: Seq<char>) -> SpdxTok {
    if w == "AND"@ {
        SpdxTok::And
    } else if w == "OR"@ {
        SpdxTok::Or
    } else if w == "WITH"@ {
        SpdxTok::With
    } else {
        SpdxTok::Id(w)
    }
}

/// Tokenization: whitespace separates, parentheses stand alone, every
/// other maximal run of characters is a word.
pub open spec fn spec_tokenize(s: Seq<char>) -> Seq<SpdxTok>
    decreases s.len(),
{
    if s.len() == 0 {
        Seq::empty()
    } else if is_space(s[0]) {
        spec_tokenize(s.drop_first())
    } else if s[0] == '(' {
        seq![SpdxTok::LParen] + spec_tokenize(s.drop_first())
    } else if s[0] == ')' {
        seq![SpdxTok::RParen] + spec_tokenize(s.drop_first())
    } else {
        let w = if word_len(s) <= s.len() {
            word_len(s) as int
        } else {
            s.len() as int
        };
        seq![word_tok(s.take(w))] + spec_tokenize(s.skip(w))
    }
}

/// Tokenize an SPDX license expression into a flat token list.
#[verifier::loop_isolation(false)]
pub fn tokenize_spdx(expr: &Vec<char>) -> (tokens: Vec<Token>)
    ensures
        toks_view(tokens@) == spec_tokenize(expr@),
{
    let s = expr;
    let n: usize = s.len();
    let mut tokens: Vec<Token> = Vec::new();
    let mut i: usize = 0;
    proof {
        assert(s@.skip(0) =~= s@);
        assert(toks_view(tokens@) =~= Seq::<SpdxTok>::empty());
    }
    while i < n
        invariant
            i <= n,
            spec_tokenize(s@) =~= toks_view(tokens@) + spec_tokenize(s@.skip(i as int)),
        decreases n - i,
    {
        let c = s[i];
        proof {
            assert(s@.skip(i as int)[0] == s@[i as int]);
            assert(s@.skip(i as int).drop_first() =~= s@.skip(i + 1));
        }
        if is_space_char(c) {
            i = i + 1;
        } else if c == '(' {
            tokens.push(Token::LParen);
            proof {
                assert(toks_view(tokens@) =~= toks_view(tokens@.drop_last()) + seq![
                    SpdxTok::LParen,
                ]);
            }
            i = i + 1;
        } else if c == ')' {
            tokens.push(Token::RParen);
            proof {
                assert(toks_view(tokens@) =~= toks_view(tokens@.drop_last()) + seq![
                    SpdxTok::RParen,
                ]);
            }
            i = i + 1;
        } else {
            let mut j: usize = i;
            let mut word: Vec<char> = Vec::new();
            proof {
                assert(word@ =~= s@.subrange(i as int, i as int));
            }
            while j < n && is_word_char_exec(s[j])
                invariant
                    i <= j <= n,
                    word@ =~= s@.subrange(i as int, j as int),
                    word_len(s@.skip(i as int)) == (j - i) + word_len(s@.skip(j as int)),
                decreases n - j,
            {
                proof {
                    assert(s@.skip(j as int)[0] == s@[j as int]);
                    assert(s@.skip(j as int).drop_first() =~= s@.skip(j + 1));
                }
                word.push(s[j]);
                j = j + 1;
            }
            proof {
                if j < n {
                    assert(s@.skip(j as int)[0] == s@[j as int]);
                }
                assert(word_len(s@.skip(j as int)) == 0);
                assert(word_len(s@.skip(i as int)) == j - i);
                assert(s@.skip(i as int).take(j - i) =~= s@.subrange(i as int, j as int));
            }
            let tok: Token = if chars_eq_str(&word, "AND") {
                Token::And
            } else if chars_eq_str(&word, "OR") {
                Token::Or
            } else if chars_eq_str(&word, "WITH") {
                Token::With
            } else {
                Token::Id(word)
            };
            proof {
                assert(tok_view(tok) == word_tok(s@.subrange(i as int, j as int)));
            }
            tokens.push(tok);
            proof {
                assert(toks_view(tokens@) =~= toks_view(tokens@.drop_last()) + seq![
                    tok_view(tokens@.last()),
                ]);
                assert(s@.skip(i as int).skip(j - i) =~= s@.skip(j as int));
            }
            i = j;
        }
    }
    proof {
        assert(spec_tokenize(s@.skip(n as int)) =~= Seq::<SpdxTok>::empty());
        assert(toks_view(tokens@) =~= spec_tokenize(s@));
    }
    tokens
}

/// Executable test for [`is_word_char`].
fn is_word_char_exec(c: char) -> (r: bool)
    ensures
        r == is_word_char(c),
{
    !is_space_char(c) && c != '(' && c != ')'
}

// ---------------------------------------------------------------------------
// Recursive descent parser
// ---------------------------------------------------------------------------

/// Token at a position, if the position is in range.
pub open spec fn tok_at(toks: Seq<SpdxTok>, pos: int) -> Option<SpdxTok> {
    if 0 <= pos < toks.len() {
        Some(toks[pos])
    } else {
        None
    }
}

/// Number of tokens at or after `pos` (zero once past the end).
pub open spec fn toks_left(toks: Seq<SpdxTok>, pos: int) -> int {
    if pos <= toks.len() {
        toks.len() - pos
    } else {
        0
    }
}

/// Parse an atom at `pos`: a parenthesised sub-expression or one
/// identifier with an optional `WITH` clause. Returns the verdict and
/// the number of tokens consumed; a missing operand consumes nothing
/// and yields the default verdict.
pub open spec fn spec_parse_atom(cfg: Config, toks: Seq<SpdxTok>, pos: int) -> (PolicyVerdict, nat)
    decreases toks_left(toks, pos), 0int,
{
    match tok_at(toks, pos) {
        Some(SpdxTok::LParen) => {
            let (v, n) = spec_parse_or(cfg, toks, pos + 1);
            if tok_at(toks, pos + 1 + n) == Some(SpdxTok::RParen) {
                (v, (n + 2) as nat)
            } else {
                (v, (n + 1) as nat)
            }
        },
        Some(SpdxTok::Id(name)) => {
            let v = spec_lookup_verdict(cfg, name);
            if tok_at(toks, pos + 1) == Some(SpdxTok::With) {
                if pos + 2 < toks.len() {
                    (v, 3)
                } else {
                    (v, 2)
                }
            } else {
                (v, 1)
            }
        },
        _ => (spec_action_verdict(cfg.policy.default), 0),
    }
}

/// Parse the `AND`-joined continuation after a first atom.
pub open spec fn spec_parse_and_rest(
    cfg: Config,
    toks: Seq<SpdxTok>,
    pos: int,
    acc: PolicyVerdict,
) -> (PolicyVerdict, nat)
    decreases toks_left(toks, pos), 1int,
{
    match tok_at(toks, pos) {
        Some(SpdxTok::And) => {
            let (v, n) = spec_parse_atom(cfg, toks, pos + 1);
            let (v2, m) = spec_parse_and_rest(cfg, toks, pos + 1 + n, spec_verdict_and(acc, v));
            (v2, (1 + n + m) as nat)
        },
        _ => (acc, 0),
    }
}

/// Parse an `AND`-level expression at `pos`.
pub open spec fn spec_parse_and(cfg: Config, toks: Seq<SpdxTok>, pos: int) -> (PolicyVerdict, nat)
    decreases toks_left(toks, pos), 2int,
{
    let (v, n) = spec_parse_atom(cfg, toks, pos);
    let (v2, m) = spec_parse_and_rest(cfg, toks, pos + n, v);
    (v2, (n + m) as nat)
}

/// Parse the `OR`-joined continuation after a first `AND`-expression.
pub open spec fn spec_parse_or_rest(
    cfg: Config,
    toks: Seq<SpdxTok>,
    pos: int,
    acc: PolicyVerdict,
) -> (PolicyVerdict, nat)
    decreases toks_left(toks, pos), 3int,
{
    match tok_at(toks, pos) {
        Some(SpdxTok::Or) => {
            let (v, n) = spec_parse_and(cfg, toks, pos + 1);
            let (v2, m) = spec_parse_or_rest(cfg, toks, pos + 1 + n, spec_verdict_or(acc, v));
            (v2, (1 + n + m) as nat)
        },
        _ => (acc, 0),
    }
}

/// Parse an `OR`-level expression at `pos` (lowest precedence).
pub open spec fn spec_parse_or(cfg: Config, toks: Seq<SpdxTok>, pos: int) -> (PolicyVerdict, nat)
    decreases toks_left(toks, pos), 4int,
{
    let (v, n) = spec_parse_and(cfg, toks, pos);
    let (v2, m) = spec_parse_or_rest(cfg, toks, pos + n, v);
    (v2, (n + m) as nat)
}

/// An atom parse consumes at most the tokens that are left.
pub proof fn lemma_atom_in_range(cfg: Config, toks: Seq<SpdxTok>, pos: int)
    requires
        0 <= pos <= toks.len(),
    ensures
        pos + spec_parse_atom(cfg, toks, pos).1 <= toks.len(),
    decreases toks_left(toks, pos), 0int,
{
    match tok_at(toks, pos) {
        Some(SpdxTok::LParen) => {
            lemma_or_in_range(cfg, toks, pos + 1);
        },
        _ => {},
    }
}

/// An `AND` continuation consumes at most the tokens that are left.
pub proof fn lemma_and_rest_in_range(cfg: Config, toks: Seq<SpdxTok>, pos: int, acc: PolicyVerdict)
    requires
        0 <= pos <= toks.len(),
    ensures
        pos + spec_parse_and_rest(cfg, toks, pos, acc).1 <= toks.len(),
    decreases toks_left(toks, pos), 1int,
{
    match tok_at(toks, pos) {
        Some(SpdxTok::And) => {
            lemma_atom_in_range(cfg, toks, pos + 1);
            let (v, n) = spec_parse_atom(cfg, toks, pos + 1);
            lemma_and_rest_in_range(cfg, toks, pos + 1 + n, spec_verdict_and(acc, v));
        },
        _ => {},
    }
}

/// An `AND` expression consumes at most the tokens that are left.
pub proof fn lemma_and_in_range(cfg: Config, toks: Seq<SpdxTok>, pos: int)
    requires
        0 <= pos <= toks.len(),
    ensures
        pos + spec_parse_and(cfg, toks, pos).1 <= toks.len(),
    decreases toks_left(toks, pos), 2int,
{
    lemma_atom_in_range(cfg, toks, pos);
    let (v, n) = spec_parse_atom(cfg, toks, pos);
    lemma_and_rest_in_range(cfg, toks, pos + n, v);
}

/// An `OR` continuation consumes at most the tokens that are left.
pub proof fn lemma_or_rest_in_range(cfg: Config, toks: Seq<SpdxTok>, pos: int, acc: PolicyVerdict)
    requires
        0 <= pos <= toks.len(),
    ensures
        pos + spec_parse_or_rest(cfg, toks, pos, acc).1 <= toks.len(),
    decreases toks_left(toks, pos), 3int,
{
    match tok_at(toks, pos) {
        Some(SpdxTok::Or) => {
            lemma_and_in_range(cfg, toks, pos + 1);
            let (v, n) = spec_parse_and(cfg, toks, pos + 1);
            lemma_or_rest_in_range(cfg, toks, pos + 1 + n, spec_verdict_or(acc, v));
        },
        _ => {},
    }
}

/// An `OR` expression consumes at most the tokens that are left.
pub proof fn lemma_or_in_range(cfg: Config, toks: Seq<SpdxTok>, pos: int)
    requires
        0 <= pos <= toks.len(),
    ensures
        pos + spec_parse_or(cfg, toks, pos).1 <= toks.len(),
    decreases toks_left(toks, pos), 4int,
{
    lemma_and_in_range(cfg, toks, pos);
    let (v, n) = spec_parse_and(cfg, toks, pos);
    lemma_or_rest_in_range(cfg, toks, pos + n, v);
}

/// Recursive descent parser state over a token list.
///
/// Grammar (`AND` binds tighter than `OR`):
/// ```text
/// expr     := or_expr
/// or_expr  := and_expr ( "OR" and_expr )*
/// and_expr := atom ( "AND" atom )*
/// atom     := "(" expr ")" | id ( "WITH" id )?
/// ```
pub struct ExprParser {
    /// The token list being parsed.
    pub tokens: Vec<Token>,
    /// Current position in `tokens`.
    pub pos: usize,
}

impl ExprParser {
    /// The parser position never passes the end of the tokens.
    pub open spec fn wf(self) -> bool {
        self.pos <= self.tokens@.len()
    }

    /// The mathematical token list.
    pub open spec fn toks(self) -> Seq<SpdxTok> {
        toks_view(self.tokens@)
    }

    /// The token under the cursor, if any.
    pub fn peek(&self) -> (r: Option<&Token>)
        ensures
            match r {
                Some(t) => self.pos < self.tokens@.len() && tok_view(*t) == self.toks().index(
                    self.pos as int,
                ),
                None => self.pos >= self.tokens@.len(),
            },
    {
        if self.pos < self.tokens.len() {
            Some(&self.tokens[self.pos])
        } else {
            None
        }
    }

    /// Step over the token under the cursor, if any.
    pub fn consume(&mut self)
        ensures
            final(self).tokens == old(self).tokens,
            old(self).pos < old(self).tokens@.len() ==> final(self).pos == old(self).pos + 1,
            old(self).pos >= old(self).tokens@.len() ==> final(self).pos == old(self).pos,
    {
        if self.pos < self.tokens.len() {
            self.pos = self.pos + 1;
        }
    }

    /// Parse an OR-level expression (lowest precedence).
    #[verifier::loop_isolation(false)]
    pub fn parse_or(&mut self, config: &Config) -> (r: PolicyVerdict)
        requires
            old(self).wf(),
        ensures
            final(self).wf(),
            final(self).tokens == old(self).tokens,
            ({
                let (v, n) = spec_parse_or(*config, old(self).toks(), old(self).pos as int);
                r == v && final(self).pos == old(self).pos + n
            }),
        decreases toks_left(old(self).toks(), old(self).pos as int), 4int,
    {
        let ghost toks = self.toks();
        let ghost pos0 = self.pos as int;
        proof {
            lemma_and_in_range(*config, toks, pos0);
        }
        let mut result = self.parse_and(config);
        loop
            invariant
                self.wf(),
                self.tokens == old(self).tokens,
                toks == self.toks(),
                pos0 <= self.pos <= toks.len(),
                spec_parse_or(*config, toks, pos0) == {
                    let (v2, m) = spec_parse_or_rest(*config, toks, self.pos as int, result);
                    (v2, ((self.pos - pos0) + m) as nat)
                },
            decreases toks_left(toks, self.pos as int),
        {
            let is_or = match self.peek() {
                Some(Token::Or) => true,
                _ => false,
            };
            if !is_or {
                break ;
            }
            self.consume();
            let ghost mid = self.pos as int;
            proof {
                lemma_and_in_range(*config, toks, mid);
            }
            let rhs = self.parse_and(config);
            result = verdict_or(result, rhs);
        }
        result
    }

    /// Parse an AND-level expression (higher precedence than OR).
    #[verifier::loop_isolation(false)]
    pub fn parse_and(&mut self, config: &Config) -> (r: PolicyVerdict)
        requires
            old(self).wf(),
        ensures
            final(self).wf(),
            final(self).tokens == old(self).tokens,
            ({
                let (v, n) = spec_parse_and(*config, old(self).toks(), old(self).pos as int);
                r == v && final(self).pos == old(self).pos + n
            }),
        decreases toks_left(old(self).toks(), old(self).pos as int), 2int,
    {
        let ghost toks = self.toks();
        let ghost pos0 = self.pos as int;
        proof {
            lemma_atom_in_range(*config, toks, pos0);
        }
        let mut result = self.parse_atom(config);
        loop
            invariant
                self.wf(),
                self.tokens == old(self).tokens,
                toks == self.toks(),
                pos0 <= self.pos <= toks.len(),
                spec_parse_and(*config, toks, pos0) == {
                    let (v2, m) = spec_parse_and_rest(*config, toks, self.pos as int, result);
                    (v2, ((self.pos - pos0) + m) as nat)
                },
            decreases toks_left(toks, self.pos as int),
        {
            let is_and = match self.peek() {
                Some(Token::And) => true,
                _ => false,
            };
            if !is_and {
                break ;
            }
            self.consume();
            let ghost mid = self.pos as int;
            proof {
                lemma_atom_in_range(*config, toks, mid);
            }
            let rhs = self.parse_atom(config);
            result = verdict_and(result, rhs);
        }
        result
    }

    /// Parse an atom: a parenthesised sub-expression or a license id.
    pub fn parse_atom(&mut self, config: &Config) -> (r: PolicyVerdict)
        requires
            old(self).wf(),
        ensures
            final(self).wf(),
            final(self).tokens == old(self).tokens,
            ({
                let (v, n) = spec_parse_atom(*config, old(self).toks(), old(self).pos as int);
                r == v && final(self).pos == old(self).pos + n
            }),
        decreases toks_left(old(self).toks(), old(self).pos as int), 0int,
    {
        let kind: u8 = match self.peek() {
            Some(Token::LParen) => 0,
            Some(Token::Id(_)) => 1,
            _ => 2,
        };
        if kind == 0 {
            self.consume();
            proof {
                lemma_or_in_range(*config, self.toks(), self.pos as int);
            }
            let result = self.parse_or(config);
            let close = match self.peek() {
                Some(Token::RParen) => true,
                _ => false,
            };
            if close {
                self.consume();
            }
            result
        } else if kind == 1 {
            let name = match &self.tokens[self.pos] {
                Token::Id(v) => copy_chars(v),
                _ => Vec::new(),
            };
            proof {
                assert(tok_view(self.tokens@[self.pos as int]) == SpdxTok::Id(name@));
            }
            self.consume();
            let has_with = match self.peek() {
                Some(Token::With) => true,
                _ => false,
            };
            if has_with {
                self.consume();  // WITH
                self.consume();  // exception identifier
            }
            apply_policy_single(config, &name)
        } else {
            config.policy.default.to_verdict()
        }
    }
}

/// Verdict of a whole SPDX expression string against the policy.
pub open spec fn spec_eval_expr(cfg: Config, s: Seq<char>) -> PolicyVerdict {
    spec_parse_or(cfg, spec_tokenize(s), 0).0
}

/// Evaluate a full SPDX expression against the policy.
pub fn eval_spdx_expr(config: &Config, expr: &Vec<char>) -> (v: PolicyVerdict)
    ensures
        v == spec_eval_expr(*config, expr@),
{
    let tokens = tokenize_spdx(expr);
    let mut parser = ExprParser { tokens, pos: 0 };
    parser.parse_or(config)
}

/// The policy verdict for a license field.
///
/// An absent license counts as "unknown". An exact rule for the whole
/// string wins; otherwise slash shorthand is normalized to `OR` and
/// the expression engine decides, falling back to the default verdict
/// for anything it cannot resolve.
pub open spec fn spec_apply_policy(cfg: Config, license: Seq<char>) -> PolicyVerdict {
    match rule_lookup(cfg.policy.licenses@, license) {
        Some(a) => spec_action_verdict(a),
        None => spec_eval_expr(cfg, slash_to_or(license)),
    }
}

/// Determine the policy verdict for an SPDX license identifier or
/// expression; `None` is treated as the literal string "unknown".
///
/// Compound expressions follow SPDX precedence: `AND` binds tighter
/// than `OR`, parentheses override precedence, and a `WITH` exception
/// clause is recognised but only the base license decides.
pub fn apply_policy(config: &Config, license_spdx: Option<&str>) -> (v: PolicyVerdict)
    ensures
        v == spec_apply_policy(
            *config,
            match license_spdx {
                Some(s) => s@,
                None => "unknown"@,
            },
        ),
{
    let license: Vec<char> = match license_spdx {
        Some(s) => chars_of(s),
        None => chars_of("unknown"),
    };
    match lookup_rule(config, &license) {
        Some(a) => a.to_verdict(),
        None => {
            let normalized = replace_slash_or(&license);
            eval_spdx_expr(config, &normalized)
        },
    }
}

/// Evaluating a policy is deterministic: any two results that meet
/// `apply_policy`'s contract for the same configuration and license
/// string are the same verdict.
pub proof fn lemma_apply_policy_deterministic(
    cfg: Config,
    license: Seq<char>,
    r1: PolicyVerdict,
    r2: PolicyVerdict,
)
    requires
        r1 == spec_apply_policy(cfg, license),
        r2 == spec_apply_policy(cfg, license),
    ensures
        r1 == r2,
{
}

/// A sequence without slashes is unchanged by slash normalization.
pub proof fn lemma_slash_free_identity(s: Seq<char>)
    requires
        forall|i: int| 0 <= i < s.len() ==> s[i] != '/',
    ensures
        slash_to_or(s) == s,
    decreases s.len(),
{
    if s.len() > 0 {
        lemma_slash_free_identity(s.drop_last());
        assert(s[s.len() - 1] != '/');
        assert(slash_to_or(s) =~= s);
    }
}

/// Slash normalization leaves no slash behind.
pub proof fn lemma_slash_to_or_slash_free(s: Seq<char>)
    ensures
        forall|i: int| 0 <= i < slash_to_or(s).len() ==> slash_to_or(s)[i] != '/',
    decreases s.len(),
{
    reveal_strlit(" OR ");
    if s.len() > 0 {
        lemma_slash_to_or_slash_free(s.drop_last());
        let head = slash_to_or(s.drop_last());
        assert forall|i: int| 0 <= i < slash_to_or(s).len() implies slash_to_or(s)[i] != '/' by {
            if i < head.len() {
                assert(slash_to_or(s)[i] == head[i]);
            } else {
                if s[s.len() - 1] == '/' {
                    assert(slash_to_or(s)[i] == " OR "@[i - head.len()]);
                } else {
                    assert(slash_to_or(s)[i] == s[s.len() - 1]);
                }
            }
        }
    }
}

/// A slash-separated license list gets the same verdict as the same
/// list written with `OR`, whenever neither spelling is itself an
/// exact rule of the policy (an exact rule always wins first).
pub proof fn lemma_slash_behaves_as_or(cfg: Config, license: Seq<char>)
    requires
        rule_lookup(cfg.policy.licenses@, license) is None,
        rule_lookup(cfg.policy.licenses@, slash_to_or(license)) is None,
    ensures
        spec_apply_policy(cfg, license) == spec_apply_policy(cfg, slash_to_or(license)),
{
    lemma_slash_to_or_slash_free(license);
    lemma_slash_free_identity(slash_to_or(license));
}

/// A plain license identifier: non-empty, made of word characters
/// only, no slash, and not one of the three operator keywords.
pub open spec fn is_plain_id(s: Seq<char>) -> bool {
    &&& s.len() > 0
    &&& forall|i: int| 0 <= i < s.len() ==> is_word_char(#[trigger] s[i]) && s[i] != '/'
    &&& s != "AND"@
    &&& s != "OR"@
    &&& s != "WITH"@
}

/// The word at the front of `a + b` is exactly `a`, when `a` is all
/// word characters and `b` does not continue it.
pub proof fn lemma_word_run(a: Seq<char>, b: Seq<char>)
    requires
        forall|i: int| 0 <= i < a.len() ==> is_word_char(#[trigger] a[i]),
        b.len() == 0 || !is_word_char(b[0]),
    ensures
        word_len(a + b) == a.len(),
    decreases a.len(),
{
    if a.len() == 0 {
        assert(a + b =~= b);
    } else {
        assert((a + b)[0] == a[0]);
        assert((a + b).drop_first() =~= a.drop_first() + b);
        lemma_word_run(a.drop_first(), b);
    }
}

/// A plain identifier tokenizes to its single token.
pub proof fn lemma_tokenize_plain(id: Seq<char>)
    requires
        is_plain_id(id),
    ensures
        spec_tokenize(id) == seq![SpdxTok::Id(id)],
{
    lemma_word_run(id, Seq::empty());
    assert(id + Seq::<char>::empty() =~= id);
    assert(word_len(id) == id.len());
    assert(id.take(id.len() as int) =~= id);
    assert(spec_tokenize(id.skip(id.len() as int)) =~= Seq::<SpdxTok>::empty());
    assert(spec_tokenize(id) =~= seq![SpdxTok::Id(id)]);
}

/// `id WITH exc` tokenizes to identifier, operator, identifier.
pub proof fn lemma_tokenize_with(id: Seq<char>, exc: Seq<char>)
    requires
        is_plain_id(id),
        is_plain_id(exc),
    ensures
        spec_tokenize(id + " WITH "@ + exc) == seq![
            SpdxTok::Id(id),
            SpdxTok::With,
            SpdxTok::Id(exc),
        ],
{
    reveal_strlit(" WITH ");
    reveal_strlit("WITH");
    reveal_strlit("AND");
    reveal_strlit("OR");
    let s = id + " WITH "@ + exc;
    let tail = " WITH "@ + exc;
    assert(s =~= id + tail);
    assert(!is_word_char(tail[0]));
    lemma_word_run(id, tail);
    assert(word_len(s) == id.len());
    assert(s.take(id.len() as int) =~= id);
    assert(s[0] == id[0]);
    assert(is_word_char(s[0]));
    let r1 = s.skip(id.len() as int);
    assert(r1 =~= tail);
    // the leading space separates
    assert(is_space(r1[0]));
    let r2 = r1.drop_first();
    // the WITH keyword
    assert(r2.take(4) =~= "WITH"@);
    assert(r2.skip(4) =~= seq![' '] + exc);
    assert(r2 =~= r2.take(4) + r2.skip(4));
    assert forall|i: int| 0 <= i < 4 implies is_word_char(#[trigger] r2.take(4)[i]) by {
        reveal_strlit("WITH");
    }
    assert(!is_word_char(r2.skip(4)[0]));
    lemma_word_run(r2.take(4), r2.skip(4));
    assert(word_len(r2) == 4);
    assert(is_word_char(r2[0]));
    assert(word_tok(r2.take(4)) == SpdxTok::With);
    let r3 = r2.skip(4);
    assert(is_space(r3[0]));
    let r4 = r3.drop_first();
    assert(r4 =~= exc);
    lemma_tokenize_plain(exc);
    assert(spec_tokenize(r4) == seq![SpdxTok::Id(exc)]);
    assert(spec_tokenize(r3) == spec_tokenize(r4));
    assert(word_len(r2) <= r2.len());
    assert(spec_tokenize(r2) == seq![word_tok(r2.take(4))] + spec_tokenize(r2.skip(4)));
    assert(spec_tokenize(r2) =~= seq![SpdxTok::With] + seq![SpdxTok::Id(exc)]);
    assert(spec_tokenize(r1) =~= seq![SpdxTok::With, SpdxTok::Id(exc)]);
    assert(spec_tokenize(s) =~= seq![SpdxTok::Id(id)] + seq![SpdxTok::With, SpdxTok::Id(exc)]);
    assert(spec_tokenize(s) =~= seq![SpdxTok::Id(id), SpdxTok::With, SpdxTok::Id(exc)]);
}

/// An exception clause is recognised and discarded: unless the whole
/// compound string is an exact rule of the policy, `id WITH exc` is
/// judged exactly as `id` alone.
pub proof fn lemma_with_clause_ignored(cfg: Config, id: Seq<char>, exc: Seq<char>)
    requires
        is_plain_id(id),
        is_plain_id(exc),
        rule_lookup(cfg.policy.licenses@, id + " WITH "@ + exc) is None,
    ensures
        spec_apply_policy(cfg, id + " WITH "@ + exc) == spec_apply_policy(cfg, id),
{
    reveal_strlit(" WITH ");
    let s = id + " WITH "@ + exc;
    assert forall|i: int| 0 <= i < s.len() implies s[i] != '/' by {
        if i < id.len() {
            assert(s[i] == id[i]);
        } else if i < id.len() + 6 {
            assert(s[i] == " WITH "@[i - id.len()]);
        } else {
            assert(s[i] == exc[i - id.len() - 6]);
        }
    }
    lemma_slash_free_identity(s);
    lemma_tokenize_with(id, exc);
    let toks = seq![SpdxTok::Id(id), SpdxTok::With, SpdxTok::Id(exc)];
    // the atom consumes all three tokens and decides by `id` alone
    assert(tok_at(toks, 0) == Some(SpdxTok::Id(id)));
    assert(tok_at(toks, 1) == Some(SpdxTok::With));
    assert(spec_parse_atom(cfg, toks, 0) == (spec_lookup_verdict(cfg, id), 3nat));
    assert(spec_parse_and_rest(cfg, toks, 3, spec_lookup_verdict(cfg, id)) == (
        spec_lookup_verdict(cfg, id),
        0nat,
    ));
    assert(spec_parse_or_rest(cfg, toks, 3, spec_lookup_verdict(cfg, id)) == (
        spec_lookup_verdict(cfg, id),
        0nat,
    ));
    assert(spec_eval_expr(cfg, s) == spec_lookup_verdict(cfg, id));
    // the plain identifier reaches the same lookup
    assert forall|i: int| 0 <= i < id.len() implies id[i] != '/' by {}
    lemma_slash_free_identity(id);
    lemma_tokenize_plain(id);
    let tid = seq![SpdxTok::Id(id)];
    assert(tok_at(tid, 0) == Some(SpdxTok::Id(id)));
    assert(tok_at(tid, 1) is None);
    assert(spec_parse_atom(cfg, tid, 0) == (spec_lookup_verdict(cfg, id), 1nat));
    assert(spec_parse_and_rest(cfg, tid, 1, spec_lookup_verdict(cfg, id)) == (
        spec_lookup_verdict(cfg, id),
        0nat,
    ));
    assert(spec_parse_or_rest(cfg, tid, 1, spec_lookup_verdict(cfg, id)) == (
        spec_lookup_verdict(cfg, id),
        0nat,
    ));
    assert(spec_eval_expr(cfg, id) == spec_lookup_verdict(cfg, id));
}

// ---------------------------------------------------------------------------
// Built-in default policy
// ---------------------------------------------------------------------------

/// The rule table of the built-in default policy.
pub open spec fn default_rules() -> Seq<(Seq<char>, PolicyAction)> {
    seq![
        ("MIT"@, PolicyAction::Pass),
        ("Apache-2.0"@, PolicyAction::Pass),
        ("BSD-2-Clause"@, PolicyAction::Pass),
        ("BSD-3-Clause"@, PolicyAction::Pass),
        ("ISC"@, PolicyAction::Pass),
        ("LGPL-2.1"@, PolicyAction::Warn),
        ("GPL-2.0"@, PolicyAction::Error),
        ("GPL-3.0"@, PolicyAction::Error),
        ("AGPL-3.0"@, PolicyAction::Error),
        ("unknown"@, PolicyAction::Warn),
    ]
}

/// View of a rule table: each key as its character sequence.
pub open spec fn rules_view(rules: Seq<(String, PolicyAction)>) -> Seq<(Seq<char>, PolicyAction)> {
    rules.map_values(|p: (String, PolicyAction)| (p.0@, p.1))
}

impl Default for Config {
    /// Built-in default policy used when no config file is found:
    /// permissive licenses pass, weak copyleft warns, strong copyleft
    /// (GPL, AGPL) errors, and anything else warns.
    fn default() -> (c: Config)
        ensures
            c.policy.default == PolicyAction::Warn,
            rules_view(c.policy.licenses@) == default_rules(),
    {
        let mut licenses: Vec<(String, PolicyAction)> = Vec::new();
        licenses.push((String::from_str("MIT"), PolicyAction::Pass));
        licenses.push((String::from_str("Apache-2.0"), PolicyAction::Pass));
        licenses.push((String::from_str("BSD-2-Clause"), PolicyAction::Pass));
        licenses.push((String::from_str("BSD-3-Clause"), PolicyAction::Pass));
        licenses.push((String::from_str("ISC"), PolicyAction::Pass));
        licenses.push((String::from_str("LGPL-2.1"), PolicyAction::Warn));
        licenses.push((String::from_str("GPL-2.0"), PolicyAction::Error));
        licenses.push((String::from_str("GPL-3.0"), PolicyAction::Error));
        licenses.push((String::from_str("AGPL-3.0"), PolicyAction::Error));
        licenses.push((String::from_str("unknown"), PolicyAction::Warn));
        let c = Config { policy: PolicyConfig { default: PolicyAction::Warn, licenses } };
        proof {
            assert(rules_view(c.policy.licenses@) =~= default_rules());
        }
        c
    }
}

/// Why a policy file was rejected.
#[derive(Debug, Clone, Copy, PartialEq, Eq, Structural)]
pub enum ConfigError {
    /// The document is not valid TOML.
    Syntax,
    /// The `[policy]` table is missing.
    MissingPolicy,
    /// A rule names an action other than pass, warn or error.
    UnknownAction,
}

/// The policy action a configuration word names.
pub open spec fn spec_parse_action(s: Seq<char>) -> Option<PolicyAction> {
    if s == "pass"@ {
        Some(PolicyAction::Pass)
    } else if s == "warn"@ {
        Some(PolicyAction::Warn)
    } else if s == "error"@ {
        Some(PolicyAction::Error)
    } else {
        None
    }
}

/// Parse one lower-case action word.
pub fn parse_action(s: &str) -> (r: Option<PolicyAction>)
    ensures
        r == spec_parse_action(s@),
{
    if crate::text::str_eq_str(s, "pass") {
        Some(PolicyAction::Pass)
    } else if crate::text::str_eq_str(s, "warn") {
        Some(PolicyAction::Warn)
    } else if crate::text::str_eq_str(s, "error") {
        Some(PolicyAction::Error)
    } else {
        None
    }
}

/// Parse a policy configuration document.
///
/// The `[policy]` table is required; `default` falls back to warn
/// when absent; every entry of `[policy.licenses]` must name one of
/// the three actions, else the whole file is rejected — a broken
/// policy must abort the run rather than silently degrade.
pub fn parse_policy_toml(content: &str) -> Result<Config, ConfigError> {
    let doc = match crate::tomlread::toml_parse(content) {
        Ok(d) => d,
        Err(_) => {
            return Err(ConfigError::Syntax);
        },
    };
    let policy = match crate::tomlread::toml_get(&doc, "policy") {
        Some(p) => p,
        None => {
            return Err(ConfigError::MissingPolicy);
        },
    };
    let default_action: PolicyAction = match crate::tomlread::toml_get(policy, "default") {
        Some(v) => match crate::tomlread::toml_as_str(v) {
            Some(s) => match parse_action(s.as_str()) {
                Some(a) => a,
                None => {
                    return Err(ConfigError::UnknownAction);
                },
            },
            None => {
                return Err(ConfigError::UnknownAction);
            },
        },
        None => default_policy_action(),
    };
    let mut licenses: Vec<(String, PolicyAction)> = Vec::new();
    if let Some(table) = crate::tomlread::toml_get(policy, "licenses") {
        if let Some(entries) = crate::tomlread::toml_table_entries(table) {
            let mut i: usize = 0;
            while i < entries.len()
                decreases entries@.len() - i,
            {
                let action = match crate::tomlread::toml_as_str(&entries[i].1) {
                    Some(s) => match parse_action(s.as_str()) {
                        Some(a) => a,
                        None => {
                            return Err(ConfigError::UnknownAction);
                        },
                    },
                    None => {
                        return Err(ConfigError::UnknownAction);
                    },
                };
                licenses.push((entries[i].0.clone(), action));
                i = i + 1;
            }
        }
    }
    Ok(Config { policy: PolicyConfig { default: default_action, licenses } })
}

} // verus!
