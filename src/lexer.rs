//! Character-level helpers of the parser, over the input as a `Vec<char>`.
use vstd::prelude::*;

use crate::grammar::{expect_char, expect_word, ident_len, skip_ws, string_body, parse_string};
use crate::syntax::{
    is_ident_char, is_keyword, is_lower, is_upper, is_ws, kw_context, kw_edge, kw_for, kw_in,
    kw_let, kw_rule, kw_tensor,
};

verus! {

/// Relies on `String::push`: the character is appended at the end.
#[verifier::external_body]
pub(crate) fn push_char(s: &mut String, c: char)
    ensures
        final(s)@ == old(s)@.push(c),
{
    s.push(c)
}

pub fn is_ws_char(c: char) -> (r: bool)
    ensures
        r == is_ws(c),
{
    c == ' ' || c == '\t' || c == '\n' || c == '\r'
}

pub fn is_lower_char(c: char) -> (r: bool)
    ensures
        r == is_lower(c),
{
    'a' <= c && c <= 'z'
}

pub fn is_upper_char(c: char) -> (r: bool)
    ensures
        r == is_upper(c),
{
    'A' <= c && c <= 'Z'
}

pub fn is_ident_char_exec(c: char) -> (r: bool)
    ensures
        r == is_ident_char(c),
{
    is_lower_char(c) || is_upper_char(c) || ('0' <= c && c <= '9') || c == '_' || c == '\''
}

/// The characters of `text`, in order.
pub fn chars_of(text: &str) -> (r: Vec<char>)
    ensures
        r@ == text@,
{
    let n = text.unicode_len();
    let mut r: Vec<char> = Vec::new();
    for k in 0..n
        invariant
            n == text@.len(),
            r@ == text@.take(k as int),
    {
        r.push(text.get_char(k));
        assert(r@ =~= text@.take(k + 1));
    }
    assert(r@ =~= text@);
    r
}

/// The characters `s[i..j]` as a `String`.
pub fn string_of(s: &Vec<char>, i: usize, j: usize) -> (r: String)
    requires
        i <= j <= s.len(),
    ensures
        r@ == s@.subrange(i as int, j as int),
{
    let mut r = String::new();
    let mut k = i;
    while k < j
        invariant
            i <= k <= j <= s.len(),
            r@ == s@.subrange(i as int, k as int),
        decreases j - k,
    {
        push_char(&mut r, s[k]);
        k = k + 1;
        assert(r@ =~= s@.subrange(i as int, k as int));
    }
    r
}

pub proof fn lemma_skip_step(s: Seq<char>, i: int)
    requires
        0 <= i < s.len(),
    ensures
        s.skip(i).drop_first() == s.skip(i + 1),
        s.skip(i)[0] == s[i],
        s.skip(i).len() == s.len() - i,
{
    assert(s.skip(i).drop_first() =~= s.skip(i + 1));
}

/// The first position from `i` on that holds no whitespace.
pub fn skip_ws_at(s: &Vec<char>, i: usize) -> (j: usize)
    requires
        i <= s.len(),
    ensures
        i <= j <= s.len(),
        s@.skip(j as int) == skip_ws(s@.skip(i as int)),
{
    let mut j = i;
    while j < s.len() && is_ws_char(s[j])
        invariant
            i <= j <= s.len(),
            skip_ws(s@.skip(j as int)) == skip_ws(s@.skip(i as int)),
        decreases s.len() - j,
    {
        proof {
            lemma_skip_step(s@, j as int);
        }
        j = j + 1;
    }
    if j < s.len() {
        proof {
            lemma_skip_step(s@, j as int);
        }
    } else {
        assert(s@.skip(j as int).len() == 0);
    }
    j
}

/// The end of the identifier that starts at `i`.
pub fn ident_end(s: &Vec<char>, i: usize) -> (j: usize)
    requires
        i <= s.len(),
    ensures
        i <= j <= s.len(),
        j - i == ident_len(s@.skip(i as int)),
        s@.skip(i as int).take(j - i) == s@.subrange(i as int, j as int),
        s@.skip(i as int).skip(j - i) == s@.skip(j as int),
{
    let mut j = i;
    while j < s.len() && is_ident_char_exec(s[j])
        invariant
            i <= j <= s.len(),
            ident_len(s@.skip(i as int)) == (j - i) + ident_len(s@.skip(j as int)),
        decreases s.len() - j,
    {
        proof {
            lemma_skip_step(s@, j as int);
        }
        j = j + 1;
    }
    if j < s.len() {
        proof {
            lemma_skip_step(s@, j as int);
        }
    } else {
        assert(s@.skip(j as int).len() == 0);
    }
    assert(s@.skip(i as int).take(j - i) =~= s@.subrange(i as int, j as int));
    assert(s@.skip(i as int).skip(j - i) =~= s@.skip(j as int));
    j
}

/// Whether `s[i..j]` spells `w`.
pub fn word_eq(s: &Vec<char>, i: usize, j: usize, w: &str) -> (r: bool)
    requires
        i <= j <= s.len(),
    ensures
        r == (s@.subrange(i as int, j as int) == w@),
{
    let n = w.unicode_len();
    if j - i != n {
        return false;
    }
    let mut k: usize = 0;
    while k < n
        invariant
            n == w@.len(),
            j - i == n,
            i <= j <= s.len(),
            k <= n,
            forall|x: int| 0 <= x < k ==> s@[i + x] == w@[x],
        decreases n - k,
    {
        if s[i + k] != w.get_char(k) {
            assert(s@.subrange(i as int, j as int)[k as int] != w@[k as int]);
            return false;
        }
        k = k + 1;
    }
    assert(s@.subrange(i as int, j as int) =~= w@);
    true
}

pub proof fn lemma_keyword_literals()
    ensures
        "let"@ == kw_let(),
        "in"@ == kw_in(),
        "for"@ == kw_for(),
        "context"@ == kw_context(),
        "edge"@ == kw_edge(),
        "rule"@ == kw_rule(),
        "tensor"@ == kw_tensor(),
{
    reveal_strlit("let");
    reveal_strlit("in");
    reveal_strlit("for");
    reveal_strlit("context");
    reveal_strlit("edge");
    reveal_strlit("rule");
    reveal_strlit("tensor");
    assert("let"@ =~= kw_let());
    assert("in"@ =~= kw_in());
    assert("for"@ =~= kw_for());
    assert("context"@ =~= kw_context());
    assert("edge"@ =~= kw_edge());
    assert("rule"@ =~= kw_rule());
    assert("tensor"@ =~= kw_tensor());
}

/// Whether `s[i..j]` is a keyword.
pub fn is_keyword_at(s: &Vec<char>, i: usize, j: usize) -> (r: bool)
    requires
        i <= j <= s.len(),
    ensures
        r == is_keyword(s@.subrange(i as int, j as int)),
{
    proof {
        lemma_keyword_literals();
    }
    word_eq(s, i, j, "let") || word_eq(s, i, j, "in") || word_eq(s, i, j, "for") || word_eq(
        s,
        i,
        j,
        "context",
    ) || word_eq(s, i, j, "edge") || word_eq(s, i, j, "rule") || word_eq(s, i, j, "tensor")
}

/// Reads the character `c` after whitespace; `Ok` holds the position after it.
pub fn expect_char_at(s: &Vec<char>, i: usize, c: char) -> (r: Result<usize, usize>)
    requires
        i <= s.len(),
    ensures
        match r {
            Ok(j) => i < j <= s.len() && expect_char(s@.skip(i as int), c) == Ok::<Seq<char>, nat>(
                s@.skip(j as int),
            ),
            Err(p) => p <= s.len() && expect_char(s@.skip(i as int), c) == Err::<Seq<char>, nat>(
                (s.len() - p) as nat,
            ),
        },
{
    let j = skip_ws_at(s, i);
    if j < s.len() && s[j] == c {
        proof {
            lemma_skip_step(s@, j as int);
        }
        Ok(j + 1)
    } else {
        Err(j)
    }
}

/// Reads the word `w` after whitespace; `Ok` holds the position after it.
pub fn expect_word_at(s: &Vec<char>, i: usize, w: &str) -> (r: Result<usize, usize>)
    requires
        i <= s.len(),
    ensures
        match r {
            Ok(j) => j <= s.len() && (w@.len() > 0 ==> i < j) && expect_word(s@.skip(i as int), w@) == Ok::<Seq<char>, nat>(
                s@.skip(j as int),
            ),
            Err(p) => p <= s.len() && expect_word(s@.skip(i as int), w@) == Err::<
                Seq<char>,
                nat,
            >((s.len() - p) as nat),
        },
{
    let j = skip_ws_at(s, i);
    let e = ident_end(s, j);
    proof {
        crate::grammar::lemma_ident_len(s@.skip(j as int));
    }
    if word_eq(s, j, e, w) {
        Ok(e)
    } else {
        Err(j)
    }
}

/// Reads a string literal after whitespace, undoing its escapes.
pub fn parse_string_at(s: &Vec<char>, i: usize) -> (r: Result<(String, usize), usize>)
    requires
        i <= s.len(),
    ensures
        match r {
            Ok((v, j)) => j <= s.len() && parse_string(s@.skip(i as int)) == Ok::<
                (Seq<char>, Seq<char>),
                nat,
            >((v@, s@.skip(j as int))),
            Err(p) => p <= s.len() && parse_string(s@.skip(i as int)) == Err::<
                (Seq<char>, Seq<char>),
                nat,
            >((s.len() - p) as nat),
        },
{
    let j = skip_ws_at(s, i);
    if !(j < s.len() && s[j] == '"') {
        return Err(j);
    }
    proof {
        lemma_skip_step(s@, j as int);
    }
    let mut out = String::new();
    let mut k = j + 1;
    loop
        invariant
            j < k <= s.len(),
            parse_string(s@.skip(i as int)) == string_body(s@.skip(k as int), out@),
        decreases s.len() - k,
    {
        if k >= s.len() {
            assert(s@.skip(k as int).len() == 0);
            return Err(s.len());
        }
        proof {
            lemma_skip_step(s@, k as int);
        }
        let c = s[k];
        if c == '"' {
            return Ok((out, k + 1));
        }
        if c == '\0' {
            return Err(k);
        }
        if c == '\\' {
            if k + 1 < s.len() && (s[k + 1] == '"' || s[k + 1] == '\\') {
                assert(s@.skip(k as int)[1] == s@[k + 1]);
                assert(s@.skip(k as int).skip(2) =~= s@.skip(k + 2));
                push_char(&mut out, s[k + 1]);
                k = k + 2;
            } else {
                return Err(k);
            }
        } else {
            push_char(&mut out, c);
            k = k + 1;
        }
    }
}

} // verus!
