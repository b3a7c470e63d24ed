//! The arguments of the `orbit_main` and `define_ports` macros: which
//! applications and drivers an image holds, and which peripherals serve as
//! ports on which interrupts.  They are read from the macro input's text.
use vstd::prelude::*;

verus! {

/// A token of macro input: a word (identifier), a literal that starts with a
/// digit, or one of the punctuation bytes `(`, `)`, `,` and `=`.
pub enum Token {
    Ident(Vec<u8>),
    Literal(Vec<u8>),
    Punct(u8),
}

/// A [`Token`] as the model sees it.
pub enum Tok {
    Ident(Seq<u8>),
    Literal(Seq<u8>),
    Punct(u8),
}

impl View for Token {
    type V = Tok;

    open spec fn view(&self) -> Tok {
        match self {
            Token::Ident(w) => Tok::Ident(w@),
            Token::Literal(w) => Tok::Literal(w@),
            Token::Punct(b) => Tok::Punct(*b),
        }
    }
}

pub open spec fn toks(t: Seq<Token>) -> Seq<Tok> {
    t.map_values(|x: Token| x@)
}

/// Why macro input was refused.
#[derive(Clone, Copy, PartialEq, Eq, Structural, Debug)]
pub enum ParseError {
    /// The input does not start with the word `apps`.
    ExpectedApps,
    /// The second list is not introduced by the word `drivers`.
    ExpectedDrivers,
    /// Any other departure from the expected shape.
    Syntax,
}

pub open spec fn is_space(b: u8) -> bool {
    b == 32 || b == 9 || b == 10 || b == 13
}

pub open spec fn is_alpha(b: u8) -> bool {
    (65 <= b <= 90) || (97 <= b <= 122) || b == 95
}

pub open spec fn is_digit(b: u8) -> bool {
    48 <= b <= 57
}

pub open spec fn is_word(b: u8) -> bool {
    is_alpha(b) || is_digit(b)
}

pub open spec fn is_punct(b: u8) -> bool {
    b == 40 || b == 41 || b == 44 || b == 61
}

/// The end of the run of word bytes that starts at `i`.
pub open spec fn word_end(s: Seq<u8>, i: int) -> int
    decreases s.len() - i,
{
    if 0 <= i < s.len() && is_word(s[i]) {
        word_end(s, i + 1)
    } else {
        i
    }
}

proof fn lemma_word_end(s: Seq<u8>, i: int)
    requires
        0 <= i <= s.len(),
    ensures
        i <= word_end(s, i) <= s.len(),
        forall|k: int| i <= k < word_end(s, i) ==> is_word(#[trigger] s[k]),
        word_end(s, i) < s.len() ==> !is_word(s[word_end(s, i)]),
    decreases s.len() - i,
{
    if i < s.len() && is_word(s[i]) {
        lemma_word_end(s, i + 1);
    }
}

/// The tokens of `s` from index `i` on; `None` when a byte that belongs to
/// no token turns up.  Spaces, tabs and line breaks separate tokens.
pub open spec fn lex_from(s: Seq<u8>, i: int) -> Option<Seq<Tok>>
    decreases s.len() - i,
{
    if i < 0 || i >= s.len() {
        Some(Seq::empty())
    } else if is_space(s[i]) {
        lex_from(s, i + 1)
    } else if is_word(s[i]) {
        let j = word_end(s, i + 1);
        let w = s.subrange(i, j);
        let t = if is_alpha(s[i]) { Tok::Ident(w) } else { Tok::Literal(w) };
        if i < j <= s.len() {
            match lex_from(s, j) {
                Some(rest) => Some(seq![t] + rest),
                None => None,
            }
        } else {
            None
        }
    } else if is_punct(s[i]) {
        match lex_from(s, i + 1) {
            Some(rest) => Some(seq![Tok::Punct(s[i])] + rest),
            None => None,
        }
    } else {
        None
    }
}

/// The tokens of `s`.
pub open spec fn lex(s: Seq<u8>) -> Option<Seq<Tok>> {
    lex_from(s, 0)
}

/// Splits macro input into tokens (see [`lex`]).
pub fn tokenize(s: &[u8]) -> (r: Option<Vec<Token>>)
    ensures
        match r {
            Some(v) => lex(s@) == Some(toks(v@)),
            None => lex(s@).is_none(),
        },
{
    let mut out: Vec<Token> = Vec::new();
    let mut i: usize = 0;
    let n = s.len();
    while i < n
        invariant
            n == s@.len(),
            i <= n,
            match lex_from(s@, i as int) {
                Some(rest) => lex(s@) == Some(toks(out@) + rest),
                None => lex(s@).is_none(),
            },
        decreases n - i,
    {
        let b = s[i];
        let ghost prev = toks(out@);
        if b == 32 || b == 9 || b == 10 || b == 13 {
            i = i + 1;
        } else if (65 <= b && b <= 90) || (97 <= b && b <= 122) || b == 95 || (48 <= b && b <= 57) {
            let mut j: usize = i + 1;
            proof {
                lemma_word_end(s@, i + 1);
            }
            let mut w: Vec<u8> = Vec::new();
            w.push(b);
            while j < n && ((65 <= s[j] && s[j] <= 90) || (97 <= s[j] && s[j] <= 122) || s[j] == 95 || (48 <= s[j] && s[j] <= 57))
                invariant
                    n == s@.len(),
                    i < j <= n,
                    word_end(s@, j as int) == word_end(s@, i + 1),
                    w@ == s@.subrange(i as int, j as int),
                decreases n - j,
            {
                w.push(s[j]);
                j = j + 1;
                proof {
                    assert(w@ =~= s@.subrange(i as int, j as int));
                }
            }
            let alpha = (65 <= b && b <= 90) || (97 <= b && b <= 122) || b == 95;
            let t = if alpha { Token::Ident(w) } else { Token::Literal(w) };
            out.push(t);
            proof {
                assert(toks(out@) =~= prev.push(t@));
                match lex_from(s@, j as int) {
                    Some(rest) => {
                        assert(prev + (seq![t@] + rest) =~= prev.push(t@) + rest);
                    },
                    None => {},
                }
            }
            i = j;
        } else if b == 40 || b == 41 || b == 44 || b == 61 {
            out.push(Token::Punct(b));
            proof {
                assert(toks(out@) =~= prev.push(Tok::Punct(b)));
                match lex_from(s@, i + 1) {
                    Some(rest) => {
                        assert(prev + (seq![Tok::Punct(b)] + rest) =~= prev.push(Tok::Punct(b)) + rest);
                    },
                    None => {},
                }
            }
            i = i + 1;
        } else {
            return None;
        }
    }
    proof {
        assert(toks(out@) + Seq::<Tok>::empty() =~= toks(out@));
    }
    Some(out)
}


/// The word `apps`.
pub open spec fn apps_word() -> Seq<u8> {
    seq![97u8, 112, 112, 115]
}

/// The word `drivers`.
pub open spec fn drivers_word() -> Seq<u8> {
    seq![100u8, 114, 105, 118, 101, 114, 115]
}

/// A comma-separated list of words, a trailing comma allowed, closed by `)`,
/// read from token `k` on: the words and the index after the `)`.
pub open spec fn parse_list(t: Seq<Tok>, k: int) -> Option<(Seq<Seq<u8>>, int)>
    decreases t.len() - k,
{
    if k < 0 || k >= t.len() {
        None
    } else {
        match t[k] {
            Tok::Punct(b) => if b == 41 {
                Some((Seq::empty(), k + 1))
            } else {
                None
            },
            Tok::Ident(w) => if k + 1 < t.len() {
                match t[k + 1] {
                    Tok::Punct(b) => if b == 41 {
                        Some((seq![w], k + 2))
                    } else if b == 44 {
                        match parse_list(t, k + 2) {
                            Some(r) => Some((seq![w] + r.0, r.1)),
                            None => None,
                        }
                    } else {
                        None
                    },
                    _ => None,
                }
            } else {
                None
            },
            _ => None,
        }
    }
}

/// The tokens of a list of the words `ws` closed by `)`: each word
/// followed by a comma but the last, which is followed by one only when
/// `trailing`.
pub open spec fn list_tokens(ws: Seq<Seq<u8>>, trailing: bool) -> Seq<Tok>
    decreases ws.len(),
{
    if ws.len() == 0 {
        seq![Tok::Punct(41)]
    } else if ws.len() == 1 {
        if trailing {
            seq![Tok::Ident(ws[0]), Tok::Punct(44), Tok::Punct(41)]
        } else {
            seq![Tok::Ident(ws[0]), Tok::Punct(41)]
        }
    } else {
        seq![Tok::Ident(ws[0]), Tok::Punct(44)] + list_tokens(ws.drop_first(), trailing)
    }
}

/// A list keeps every word: reading the tokens of a list of words (a
/// trailing comma allowed after at least one word) gives back exactly
/// those words, in order, and stops right after the `)`.
pub proof fn lemma_list_keeps_every_word(t: Seq<Tok>, k: int, ws: Seq<Seq<u8>>, trailing: bool)
    requires
        0 <= k,
        trailing ==> ws.len() > 0,
        k + list_tokens(ws, trailing).len() <= t.len(),
        forall|j: int| 0 <= j < list_tokens(ws, trailing).len() ==> t[k + j] == #[trigger] list_tokens(ws, trailing)[j],
    ensures
        parse_list(t, k) == Some((ws, k + list_tokens(ws, trailing).len())),
    decreases ws.len(),
{
    let l = list_tokens(ws, trailing);
    assert(t[k] == l[0]);
    if ws.len() == 1 {
        assert(t[k + 1] == l[1]);
        if trailing {
            assert(t[k + 2] == l[2]);
        }
        assert(seq![ws[0]] =~= ws);
    } else if ws.len() > 1 {
        assert(t[k + 1] == l[1]);
        let rest = list_tokens(ws.drop_first(), trailing);
        assert forall|j: int| 0 <= j < rest.len() implies t[k + 2 + j] == #[trigger] rest[j] by {
            assert(l[j + 2] == rest[j]);
            assert(t[k + (j + 2)] == l[j + 2]);
        }
        lemma_list_keeps_every_word(t, k + 2, ws.drop_first(), trailing);
        assert(seq![ws[0]] + ws.drop_first() =~= ws);
    }
}

/// The arguments of `orbit_main`: `apps(` words `)` `,` `drivers(` words `)`
/// and nothing after.
pub open spec fn parse_main_args(t: Seq<Tok>) -> Result<(Seq<Seq<u8>>, Seq<Seq<u8>>), ParseError> {
    if t.len() == 0 {
        Err(ParseError::Syntax)
    } else {
        match t[0] {
            Tok::Ident(w) => if w != apps_word() {
                Err(ParseError::ExpectedApps)
            } else if !(t.len() > 1 && t[1] == Tok::Punct(40)) {
                Err(ParseError::Syntax)
            } else {
                match parse_list(t, 2) {
                    None => Err(ParseError::Syntax),
                    Some((apps, k)) => if !(k < t.len() && t[k] == Tok::Punct(44)) {
                        Err(ParseError::Syntax)
                    } else if !(k + 1 < t.len()) {
                        Err(ParseError::Syntax)
                    } else {
                        match t[k + 1] {
                            Tok::Ident(w2) => if w2 != drivers_word() {
                                Err(ParseError::ExpectedDrivers)
                            } else if !(k + 2 < t.len() && t[k + 2] == Tok::Punct(40)) {
                                Err(ParseError::Syntax)
                            } else {
                                match parse_list(t, k + 3) {
                                    Some((drivers, e)) => if e == t.len() {
                                        Ok((apps, drivers))
                                    } else {
                                        Err(ParseError::Syntax)
                                    },
                                    None => Err(ParseError::Syntax),
                                }
                            },
                            _ => Err(ParseError::Syntax),
                        }
                    },
                }
            },
            _ => Err(ParseError::Syntax),
        }
    }
}

/// The applications and drivers an image holds, by name.
pub struct OrbitMainArgs {
    pub apps: Vec<Vec<u8>>,
    pub drivers: Vec<Vec<u8>>,
}

pub open spec fn words(v: Seq<Vec<u8>>) -> Seq<Seq<u8>> {
    v.map_values(|w: Vec<u8>| w@)
}

fn is_punct_token(t: &Token, b: u8) -> (r: bool)
    ensures
        r == (t@ == Tok::Punct(b)),
{
    match t {
        Token::Punct(c) => *c == b,
        _ => false,
    }
}

fn same_word(w: &Vec<u8>, lit: &[u8]) -> (r: bool)
    ensures
        r == (w@ == lit@),
{
    crate::bytes::bytes_eq(w.as_slice(), lit)
}

fn copy_word(w: &Vec<u8>) -> (r: Vec<u8>)
    ensures
        r@ == w@,
{
    crate::bytes::to_vec(w.as_slice())
}

/// Reads a list of words closed by `)` from token `k` on (see
/// [`parse_list`]).
pub fn parse_list_at(t: &Vec<Token>, k: usize) -> (r: Option<(Vec<Vec<u8>>, usize)>)
    ensures
        match r {
            Some((ws, e)) => parse_list(toks(t@), k as int) == Some((words(ws@), e as int)),
            None => parse_list(toks(t@), k as int).is_none(),
        },
    decreases t@.len() - k,
{
    let ghost tv = toks(t@);
    if k >= t.len() {
        return None;
    }
    proof {
        assert(tv[k as int] == t@[k as int]@);
    }
    match &t[k] {
        Token::Punct(b) => {
            if *b == 41u8 {
                let v: Vec<Vec<u8>> = Vec::new();
                proof {
                    assert(words(v@) =~= Seq::<Seq<u8>>::empty());
                }
                Some((v, k + 1))
            } else {
                None
            }
        },
        Token::Ident(w) => {
            if k + 1 >= t.len() {
                return None;
            }
            proof {
                assert(tv[k + 1] == t@[k + 1]@);
            }
            if is_punct_token(&t[k + 1], 41u8) {
                let mut v: Vec<Vec<u8>> = Vec::new();
                v.push(copy_word(w));
                proof {
                    assert(words(v@) =~= seq![w@]);
                }
                Some((v, k + 2))
            } else if is_punct_token(&t[k + 1], 44u8) {
                match parse_list_at(t, k + 2) {
                    Some((rest, e)) => {
                        let mut v: Vec<Vec<u8>> = Vec::new();
                        v.push(copy_word(w));
                        let mut i: usize = 0;
                        while i < rest.len()
                            invariant
                                i <= rest@.len(),
                                words(v@) == seq![w@] + words(rest@.subrange(0, i as int)),
                            decreases rest@.len() - i,
                        {
                            let ghost prev = v@;
                            v.push(copy_word(&rest[i]));
                            i = i + 1;
                            proof {
                                assert(words(v@) =~= words(prev).push(rest@[i - 1]@));
                                assert(words(rest@.subrange(0, i as int)) =~= words(rest@.subrange(0, i - 1)).push(rest@[i - 1]@));
                                assert(words(v@) =~= seq![w@] + words(rest@.subrange(0, i as int)));
                            }
                        }
                        proof {
                            assert(rest@.subrange(0, rest@.len() as int) =~= rest@);
                        }
                        Some((v, e))
                    },
                    None => None,
                }
            } else {
                None
            }
        },
        _ => None,
    }
}

/// Reads the arguments of `orbit_main` from the macro input's text (see
/// [`parse_main_args`]); input with a byte that belongs to no token is a
/// syntax error.
pub fn parse_orbit_main_args(input: &[u8]) -> (r: Result<OrbitMainArgs, ParseError>)
    ensures
        match lex(input@) {
            None => r == Err::<OrbitMainArgs, ParseError>(ParseError::Syntax),
            Some(t) => match r {
                Ok(a) => parse_main_args(t) == Ok::<(Seq<Seq<u8>>, Seq<Seq<u8>>), ParseError>((words(a.apps@), words(a.drivers@))),
                Err(e) => parse_main_args(t) == Err::<(Seq<Seq<u8>>, Seq<Seq<u8>>), ParseError>(e),
            },
        },
{
    let t = match tokenize(input) {
        Some(t) => t,
        None => return Err(ParseError::Syntax),
    };
    let ghost tv = toks(t@);
    if t.len() == 0 {
        return Err(ParseError::Syntax);
    }
    proof {
        assert(tv[0] == t@[0]@);
    }
    let apps_kw: &[u8] = &[97u8, 112, 112, 115];
    let drivers_kw: &[u8] = &[100u8, 114, 105, 118, 101, 114, 115];
    proof {
        assert(apps_kw@ =~= apps_word());
        assert(drivers_kw@ =~= drivers_word());
    }
    match &t[0] {
        Token::Ident(w) => {
            if !same_word(w, apps_kw) {
                return Err(ParseError::ExpectedApps);
            }
        },
        _ => return Err(ParseError::Syntax),
    }
    if t.len() <= 1 || !is_punct_token(&t[1], 40u8) {
        proof {
            if t.len() > 1 {
                assert(tv[1] == t@[1]@);
            }
        }
        return Err(ParseError::Syntax);
    }
    proof {
        assert(tv[1] == t@[1]@);
    }
    let (apps, k) = match parse_list_at(&t, 2) {
        Some(r) => r,
        None => return Err(ParseError::Syntax),
    };
    if k >= t.len() || !is_punct_token(&t[k], 44u8) {
        proof {
            if k < t.len() {
                assert(tv[k as int] == t@[k as int]@);
            }
        }
        return Err(ParseError::Syntax);
    }
    proof {
        assert(tv[k as int] == t@[k as int]@);
    }
    if k + 1 >= t.len() {
        return Err(ParseError::Syntax);
    }
    proof {
        assert(tv[k + 1] == t@[k + 1]@);
    }
    match &t[k + 1] {
        Token::Ident(w2) => {
            if !same_word(w2, drivers_kw) {
                return Err(ParseError::ExpectedDrivers);
            }
        },
        _ => return Err(ParseError::Syntax),
    }
    if k + 2 >= t.len() || !is_punct_token(&t[k + 2], 40u8) {
        proof {
            if k + 2 < t.len() {
                assert(tv[k + 2] == t@[k + 2]@);
            }
        }
        return Err(ParseError::Syntax);
    }
    proof {
        assert(tv[k + 2] == t@[k + 2]@);
    }
    match parse_list_at(&t, k + 3) {
        Some((drivers, e)) => {
            if e == t.len() {
                Ok(OrbitMainArgs { apps, drivers })
            } else {
                Err(ParseError::Syntax)
            }
        },
        None => Err(ParseError::Syntax),
    }
}

/// A byte in lower case, for ASCII letters.
pub open spec fn lower_byte(b: u8) -> u8 {
    if 65 <= b <= 90 {
        (b + 32) as u8
    } else {
        b
    }
}

/// A byte in upper case, for ASCII letters.
pub open spec fn upper_byte(b: u8) -> u8 {
    if 97 <= b <= 122 {
        (b - 32) as u8
    } else {
        b
    }
}

/// A word in lower case: the names under which the image refers to its
/// applications and drivers, and to a port's peripheral module.
pub fn to_lowercase(w: &[u8]) -> (r: Vec<u8>)
    ensures
        r@ == w@.map_values(|b: u8| lower_byte(b)),
{
    let mut r: Vec<u8> = Vec::new();
    let mut i: usize = 0;
    while i < w.len()
        invariant
            i <= w@.len(),
            r@ == w@.subrange(0, i as int).map_values(|b: u8| lower_byte(b)),
        decreases w@.len() - i,
    {
        let b = w[i];
        let c = if 65 <= b && b <= 90 { b + 32 } else { b };
        r.push(c);
        i = i + 1;
        proof {
            assert(r@ =~= w@.subrange(0, i as int).map_values(|b: u8| lower_byte(b)));
        }
    }
    proof {
        assert(w@.subrange(0, w@.len() as int) =~= w@);
    }
    r
}

/// A word in upper case: the name of a port's peripheral and of its kind.
pub fn to_uppercase(w: &[u8]) -> (r: Vec<u8>)
    ensures
        r@ == w@.map_values(|b: u8| upper_byte(b)),
{
    let mut r: Vec<u8> = Vec::new();
    let mut i: usize = 0;
    while i < w.len()
        invariant
            i <= w@.len(),
            r@ == w@.subrange(0, i as int).map_values(|b: u8| upper_byte(b)),
        decreases w@.len() - i,
    {
        let b = w[i];
        let c = if 97 <= b && b <= 122 { b - 32 } else { b };
        r.push(c);
        i = i + 1;
        proof {
            assert(r@ =~= w@.subrange(0, i as int).map_values(|b: u8| upper_byte(b)));
        }
    }
    proof {
        assert(w@.subrange(0, w@.len() as int) =~= w@);
    }
    r
}


/// Whether a token can stand as a port's interrupt number: a word or a
/// literal.
pub open spec fn is_value(t: Tok) -> bool {
    t is Ident || t is Literal
}

/// The bindings `NAME = VALUE` of `define_ports`, separated by commas (a
/// trailing comma allowed), read from token `k` to the end.
pub open spec fn parse_bindings(t: Seq<Tok>, k: int) -> Option<Seq<(Seq<u8>, Tok)>>
    decreases t.len() - k,
{
    if k < 0 {
        None
    } else if k >= t.len() {
        Some(Seq::empty())
    } else {
        match t[k] {
            Tok::Ident(w) => if k + 2 < t.len() && t[k + 1] == Tok::Punct(61) && is_value(t[k + 2]) {
                let b = (w, t[k + 2]);
                if k + 3 == t.len() {
                    Some(seq![b])
                } else if t[k + 3] == Tok::Punct(44) {
                    match parse_bindings(t, k + 4) {
                        Some(r) => Some(seq![b] + r),
                        None => None,
                    }
                } else {
                    None
                }
            } else {
                None
            },
            _ => None,
        }
    }
}

/// One port of `define_ports`: the name of its peripheral and the token of
/// its interrupt number.
pub struct PortBinding {
    pub ident: Vec<u8>,
    pub expr: Token,
}

pub open spec fn bindings_view(v: Seq<PortBinding>) -> Seq<(Seq<u8>, Tok)> {
    v.map_values(|b: PortBinding| (b.ident@, b.expr@))
}

fn copy_token(t: &Token) -> (r: Token)
    ensures
        r@ == t@,
{
    match t {
        Token::Ident(w) => Token::Ident(copy_word(w)),
        Token::Literal(w) => Token::Literal(copy_word(w)),
        Token::Punct(b) => Token::Punct(*b),
    }
}

/// Reads the bindings from token `k` on (see [`parse_bindings`]).
pub fn parse_bindings_at(t: &Vec<Token>, k: usize) -> (r: Option<Vec<PortBinding>>)
    ensures
        match r {
            Some(v) => parse_bindings(toks(t@), k as int) == Some(bindings_view(v@)),
            None => parse_bindings(toks(t@), k as int).is_none(),
        },
    decreases t@.len() - k,
{
    let ghost tv = toks(t@);
    if k >= t.len() {
        let v: Vec<PortBinding> = Vec::new();
        proof {
            assert(bindings_view(v@) =~= Seq::<(Seq<u8>, Tok)>::empty());
        }
        return Some(v);
    }
    proof {
        assert(tv[k as int] == t@[k as int]@);
    }
    let w = match &t[k] {
        Token::Ident(w) => w,
        _ => return None,
    };
    if t.len() - k <= 2 || !is_punct_token(&t[k + 1], 61u8) {
        proof {
            if k + 2 < t.len() {
                assert(tv[k + 1] == t@[k + 1]@);
            }
        }
        return None;
    }
    proof {
        assert(tv[k + 1] == t@[k + 1]@);
        assert(tv[k + 2] == t@[k + 2]@);
    }
    match &t[k + 2] {
        Token::Punct(_) => return None,
        _ => {},
    }
    let first = PortBinding { ident: copy_word(w), expr: copy_token(&t[k + 2]) };
    if k + 3 == t.len() {
        let mut v: Vec<PortBinding> = Vec::new();
        v.push(first);
        proof {
            assert(bindings_view(v@) =~= seq![(w@, tv[k + 2])]);
        }
        return Some(v);
    }
    proof {
        assert(tv[k + 3] == t@[k + 3]@);
    }
    if !is_punct_token(&t[k + 3], 44u8) {
        return None;
    }
    match parse_bindings_at(t, k + 4) {
        Some(rest) => {
            let mut v: Vec<PortBinding> = Vec::new();
            v.push(first);
            let mut rest = rest;
            let ghost rv = bindings_view(rest@);
            let mut i: usize = 0;
            let n = rest.len();
            while i < n
                invariant
                    n == rest@.len(),
                    i <= n,
                    bindings_view(v@) == seq![(w@, tv[k + 2])] + rv.subrange(0, i as int),
                    rv == bindings_view(rest@),
                decreases n - i,
            {
                let b = PortBinding { ident: copy_word(&rest[i].ident), expr: copy_token(&rest[i].expr) };
                let ghost prev = v@;
                v.push(b);
                i = i + 1;
                proof {
                    assert(bindings_view(v@) =~= bindings_view(prev).push(rv[i - 1]));
                    assert(rv.subrange(0, i as int) =~= rv.subrange(0, i - 1).push(rv[i - 1]));
                }
            }
            proof {
                assert(rv.subrange(0, n as int) =~= rv);
            }
            Some(v)
        },
        None => None,
    }
}

/// Reads the ports of `define_ports` from the macro input's text (see
/// [`parse_bindings`]); input with a byte that belongs to no token, or any
/// other shape, is a syntax error.
pub fn parse_port_bindings(input: &[u8]) -> (r: Result<Vec<PortBinding>, ParseError>)
    ensures
        match r {
            Ok(v) => lex(input@) matches Some(t) && parse_bindings(t, 0) == Some(bindings_view(v@)),
            Err(e) => e == ParseError::Syntax && (lex(input@) matches Some(t) ==> parse_bindings(t, 0).is_none()),
        },
{
    let t = match tokenize(input) {
        Some(t) => t,
        None => return Err(ParseError::Syntax),
    };
    match parse_bindings_at(&t, 0) {
        Some(v) => Ok(v),
        None => Err(ParseError::Syntax),
    }
}

} // verus!
