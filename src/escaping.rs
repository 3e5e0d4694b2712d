//! The ServerQuery escaping: the characters that would break a record on the
//! wire (separators and control characters) travel as two-character tokens,
//! a backslash followed by a letter.
use vstd::prelude::*;

verus! {

/// The literal that the token `\e` stands for, where `e` is the character
/// after the backslash.
pub open spec fn token_literal(e: char) -> Option<char> {
    if e == '\\' {
        Some('\\')
    } else if e == 's' {
        Some(' ')
    } else if e == '/' {
        Some('/')
    } else if e == 'p' {
        Some('|')
    } else if e == 'a' {
        Some('\x07')
    } else if e == 'b' {
        Some('\x08')
    } else if e == 't' {
        Some('\t')
    } else if e == 'n' {
        Some('\n')
    } else if e == 'v' {
        Some('\x0b')
    } else if e == 'f' {
        Some('\x0c')
    } else if e == 'r' {
        Some('\r')
    } else {
        None
    }
}

/// The letter of the token that stands for the literal `c`, where `c` is
/// one of the characters that the wire form escapes.
pub open spec fn token_letter(c: char) -> Option<char> {
    if c == '\\' {
        Some('\\')
    } else if c == ' ' {
        Some('s')
    } else if c == '/' {
        Some('/')
    } else if c == '|' {
        Some('p')
    } else if c == '\x07' {
        Some('a')
    } else if c == '\x08' {
        Some('b')
    } else if c == '\t' {
        Some('t')
    } else if c == '\n' {
        Some('n')
    } else if c == '\x0b' {
        Some('v')
    } else if c == '\x0c' {
        Some('f')
    } else if c == '\r' {
        Some('r')
    } else {
        None
    }
}

/// The wire form of one character.
pub open spec fn escaped_char(c: char) -> Seq<char> {
    match token_letter(c) {
        Some(e) => seq!['\\', e],
        None => seq![c],
    }
}

/// The wire form of a text: each escaped character replaced by its token.
pub open spec fn escaped(s: Seq<char>) -> Seq<char>
    decreases s.len(),
{
    if s.len() == 0 {
        Seq::empty()
    } else {
        escaped_char(s[0]) + escaped(s.skip(1))
    }
}

/// The text of a wire form, read left to right: a backslash followed by a
/// token letter gives the token's literal; every other character stands
/// for itself.
pub open spec fn unescaped(s: Seq<char>) -> Seq<char>
    decreases s.len(),
{
    if s.len() == 0 {
        Seq::empty()
    } else if s.len() >= 2 && s[0] == '\\' && token_literal(s[1]) is Some {
        seq![token_literal(s[1])->0] + unescaped(s.skip(2))
    } else {
        seq![s[0]] + unescaped(s.skip(1))
    }
}

/// A well-formed wire form: every backslash starts a token, and no character
/// that the wire form escapes stands in it bare.
pub open spec fn is_wire_form(s: Seq<char>) -> bool
    decreases s.len(),
{
    if s.len() == 0 {
        true
    } else if s[0] == '\\' {
        s.len() >= 2 && token_literal(s[1]) is Some && is_wire_form(s.skip(2))
    } else {
        token_letter(s[0]) is None && is_wire_form(s.skip(1))
    }
}

proof fn lemma_letter_literal(c: char)
    ensures
        token_letter(c) matches Some(e) ==> token_literal(e) == Some(c),
        token_letter(c) is None ==> c != '\\',
{
}

proof fn lemma_literal_letter(e: char)
    ensures
        token_literal(e) matches Some(c) ==> token_letter(c) == Some(e),
{
}

/// Unescaping the wire form of any text gives the text back.
pub proof fn lemma_unescape_escape(s: Seq<char>)
    ensures
        unescaped(escaped(s)) == s,
    decreases s.len(),
{
    if s.len() > 0 {
        let rest = escaped(s.skip(1));
        lemma_unescape_escape(s.skip(1));
        lemma_letter_literal(s[0]);
        let w = escaped_char(s[0]) + rest;
        if token_letter(s[0]) is Some {
            assert(w.skip(2) =~= rest);
        } else {
            assert(w.skip(1) =~= rest);
        }
        assert(s =~= seq![s[0]] + s.skip(1));
    }
}

/// Every wire form is well formed.
pub proof fn lemma_escape_is_wire_form(s: Seq<char>)
    ensures
        is_wire_form(escaped(s)),
    decreases s.len(),
{
    if s.len() > 0 {
        let rest = escaped(s.skip(1));
        lemma_escape_is_wire_form(s.skip(1));
        lemma_letter_literal(s[0]);
        let w = escaped_char(s[0]) + rest;
        if token_letter(s[0]) is Some {
            assert(w.skip(2) =~= rest);
        } else {
            assert(w.skip(1) =~= rest);
        }
    }
}

/// Escaping the text of a well-formed wire form gives the wire form back.
pub proof fn lemma_escape_unescape(t: Seq<char>)
    requires
        is_wire_form(t),
    ensures
        escaped(unescaped(t)) == t,
    decreases t.len(),
{
    if t.len() > 0 {
        if t[0] == '\\' {
            lemma_escape_unescape(t.skip(2));
            lemma_literal_letter(t[1]);
            let u = seq![token_literal(t[1])->0] + unescaped(t.skip(2));
            assert(u.skip(1) =~= unescaped(t.skip(2)));
            assert(t =~= seq![t[0], t[1]] + t.skip(2));
        } else {
            lemma_escape_unescape(t.skip(1));
            let u = seq![t[0]] + unescaped(t.skip(1));
            assert(u.skip(1) =~= unescaped(t.skip(1)));
            assert(t =~= seq![t[0]] + t.skip(1));
        }
    }
}

/// The token for `c` when the wire form escapes `c`.
fn token_of(c: char) -> (r: Option<&'static str>)
    ensures
        token_letter(c) is None <==> r is None,
        r matches Some(t) ==> t@ == escaped_char(c),
{
    proof {
        reveal_strlit("\\\\");
        reveal_strlit("\\s");
        reveal_strlit("\\/");
        reveal_strlit("\\p");
        reveal_strlit("\\a");
        reveal_strlit("\\b");
        reveal_strlit("\\t");
        reveal_strlit("\\n");
        reveal_strlit("\\v");
        reveal_strlit("\\f");
        reveal_strlit("\\r");
    }
    if c == '\\' {
        Some("\\\\")
    } else if c == ' ' {
        Some("\\s")
    } else if c == '/' {
        Some("\\/")
    } else if c == '|' {
        Some("\\p")
    } else if c == '\x07' {
        Some("\\a")
    } else if c == '\x08' {
        Some("\\b")
    } else if c == '\t' {
        Some("\\t")
    } else if c == '\n' {
        Some("\\n")
    } else if c == '\x0b' {
        Some("\\v")
    } else if c == '\x0c' {
        Some("\\f")
    } else if c == '\r' {
        Some("\\r")
    } else {
        None
    }
}

/// The literal that the token `\e` stands for, as a one-character text.
fn literal_of(e: char) -> (r: Option<&'static str>)
    ensures
        token_literal(e) is None <==> r is None,
        r matches Some(t) ==> t@ == seq![token_literal(e)->0],
{
    proof {
        reveal_strlit("\\");
        reveal_strlit(" ");
        reveal_strlit("/");
        reveal_strlit("|");
        reveal_strlit("\x07");
        reveal_strlit("\x08");
        reveal_strlit("\t");
        reveal_strlit("\n");
        reveal_strlit("\x0b");
        reveal_strlit("\x0c");
        reveal_strlit("\r");
    }
    if e == '\\' {
        Some("\\")
    } else if e == 's' {
        Some(" ")
    } else if e == '/' {
        Some("/")
    } else if e == 'p' {
        Some("|")
    } else if e == 'a' {
        Some("\x07")
    } else if e == 'b' {
        Some("\x08")
    } else if e == 't' {
        Some("\t")
    } else if e == 'n' {
        Some("\n")
    } else if e == 'v' {
        Some("\x0b")
    } else if e == 'f' {
        Some("\x0c")
    } else if e == 'r' {
        Some("\r")
    } else {
        None
    }
}

/// Escapes every character that the ServerQuery wire form escapes.
pub fn escape(s: &str) -> (r: String)
    ensures
        r@ == escaped(s@),
{
    let n = s.unicode_len();
    let mut out = String::new();
    let mut i: usize = 0;
    assert(s@.skip(0) =~= s@);
    assert(out@ + escaped(s@) =~= escaped(s@));
    while i < n
        invariant
            n == s@.len(),
            i <= n,
            out@ + escaped(s@.skip(i as int)) == escaped(s@),
        decreases n - i,
    {
        let c = s.get_char(i);
        let ghost before = out@;
        assert(s@.skip(i as int).skip(1) =~= s@.skip(i + 1));
        match token_of(c) {
            Some(t) => out.append(t),
            None => out.append(s.substring_char(i, i + 1)),
        }
        assert(out@ =~= before + escaped_char(c));
        assert(out@ + escaped(s@.skip(i + 1)) =~= before + escaped(s@.skip(i as int)));
        i = i + 1;
    }
    assert(s@.skip(n as int) =~= Seq::<char>::empty());
    assert(out@ + escaped(s@.skip(n as int)) =~= out@);
    out
}

/// Replaces every token of the ServerQuery wire form by its literal, in one
/// pass from left to right.
pub fn unescape(s: &str) -> (r: String)
    ensures
        r@ == unescaped(s@),
{
    let n = s.unicode_len();
    let mut out = String::new();
    let mut i: usize = 0;
    assert(s@.skip(0) =~= s@);
    assert(out@ + unescaped(s@) =~= unescaped(s@));
    while i < n
        invariant
            n == s@.len(),
            i <= n,
            out@ + unescaped(s@.skip(i as int)) == unescaped(s@),
        decreases n - i,
    {
        let c = s.get_char(i);
        let ghost before = out@;
        let ghost rest = s@.skip(i as int);
        let mut step: usize = 1;
        if c == '\\' && i + 1 < n {
            let e = s.get_char(i + 1);
            match literal_of(e) {
                Some(t) => {
                    out.append(t);
                    step = 2;
                },
                None => out.append(s.substring_char(i, i + 1)),
            }
        } else {
            out.append(s.substring_char(i, i + 1));
        }
        assert(rest.skip(step as int) =~= s@.skip(i + step));
        assert(out@ + unescaped(s@.skip(i + step)) =~= before + unescaped(rest));
        i = i + step;
    }
    assert(s@.skip(n as int) =~= Seq::<char>::empty());
    assert(out@ + unescaped(s@.skip(n as int)) =~= out@);
    out
}

} // verus!
