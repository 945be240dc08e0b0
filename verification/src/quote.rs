//! Single-quoted Lua string literals: how the packager writes a JSON string
//! or an imported text between single quotes, and how Lua reads such a
//! literal back.

use vstd::prelude::*;

use crate::text::{chars_of, digit_value, numeral_value, push_char};

verus! {

/// How the packager writes one character of a JSON string or key between
/// single quotes: a backslash, a quote, a line feed and a carriage return by
/// their escapes `\\`, `\'`, `\n`, `\r`; any other character as it is.
pub open spec fn quote_char(c: char) -> Seq<char> {
    if c == '\\' {
        seq!['\\', '\\']
    } else if c == '\'' {
        seq!['\\', '\'']
    } else if c == '\n' {
        seq!['\\', 'n']
    } else if c == '\r' {
        seq!['\\', 'r']
    } else {
        seq![c]
    }
}

/// How the packager writes one character of an imported text file between
/// single quotes: a tab by the escape `\t`, anything else as [`quote_char`].
pub open spec fn text_quote_char(c: char) -> Seq<char> {
    if c == '\t' {
        seq!['\\', 't']
    } else {
        quote_char(c)
    }
}

/// The text `s` of a JSON string or key as the packager writes it between
/// single quotes: each character quoted by [`quote_char`], in order.
pub open spec fn json_quoted(s: Seq<char>) -> Seq<char>
    decreases s.len(),
{
    if s.len() == 0 {
        Seq::empty()
    } else {
        quote_char(s[0]) + json_quoted(s.drop_first())
    }
}

/// `s` starts with a carriage return followed by a line feed.
pub open spec fn starts_with_crlf(s: Seq<char>) -> bool {
    s.len() >= 2 && s[0] == '\r' && s[1] == '\n'
}

/// The text of an imported file as the packager writes it between single
/// quotes: each carriage return followed by a line feed becomes the one
/// escape `\n`, and every other character is quoted by [`text_quote_char`].
pub open spec fn text_quoted(s: Seq<char>) -> Seq<char>
    decreases s.len(),
{
    if s.len() == 0 {
        Seq::empty()
    } else if starts_with_crlf(s) {
        seq!['\\', 'n'] + text_quoted(s.skip(2))
    } else {
        text_quote_char(s[0]) + text_quoted(s.drop_first())
    }
}

/// `s` with each carriage return that is followed by a line feed left out:
/// Windows line breaks become line feeds.
pub open spec fn fold_crlf(s: Seq<char>) -> Seq<char>
    decreases s.len(),
{
    if s.len() == 0 {
        Seq::empty()
    } else if starts_with_crlf(s) {
        seq!['\n'] + fold_crlf(s.skip(2))
    } else {
        seq![s[0]] + fold_crlf(s.drop_first())
    }
}

/// The character that a one-letter escape `\e` stands for in a Lua string.
pub open spec fn simple_escape(e: char) -> Option<char> {
    if e == 'n' {
        Some('\n')
    } else if e == 'r' {
        Some('\r')
    } else if e == 't' {
        Some('\t')
    } else if e == '\\' {
        Some('\\')
    } else if e == '\'' {
        Some('\'')
    } else if e == '"' {
        Some('"')
    } else if e == 'a' {
        Some(7 as char)
    } else if e == 'b' {
        Some(8 as char)
    } else if e == 'f' {
        Some(12 as char)
    } else if e == 'v' {
        Some(11 as char)
    } else {
        None
    }
}

/// A decimal digit.
pub open spec fn is_digit(c: char) -> bool {
    0 <= digit_value(c) < 10
}

/// How many decimal digits Lua reads in a decimal escape whose digits start
/// `s`: as many as there are, up to three.
pub open spec fn escape_digits(s: Seq<char>) -> int {
    if s.len() >= 3 && is_digit(s[0]) && is_digit(s[1]) && is_digit(s[2]) {
        3
    } else if s.len() >= 2 && is_digit(s[0]) && is_digit(s[1]) {
        2
    } else {
        1
    }
}

/// The text that Lua reads from `body`, the part of a single-quoted string
/// literal between its quotes, or `None` where Lua rejects the literal: a
/// bare quote (which would end it), a bare line feed or carriage return, a
/// backslash at the end, or an unknown escape.  Characters stand for
/// themselves; `\n`, `\r`, `\t`, `\\`, `\'`, `\"`, `\a`, `\b`, `\f`, `\v`
/// for the characters they name; `\d`, `\dd`, `\ddd` (as many digits as
/// follow, up to three) for the character with that code.  The escapes that
/// the packager never writes (`\x`, `\z`, `\u{..}`, a backslash before a
/// line break, and decimal escapes of codes above 127, which stand for bytes
/// rather than characters) are left out: this model reads them as `None`.
pub open spec fn lua_string_value(body: Seq<char>) -> Option<Seq<char>>
    decreases body.len(),
{
    if body.len() == 0 {
        Some(Seq::empty())
    } else if body[0] == '\'' || body[0] == '\n' || body[0] == '\r' {
        None
    } else if body[0] != '\\' {
        match lua_string_value(body.drop_first()) {
            Some(rest) => Some(seq![body[0]] + rest),
            None => None,
        }
    } else if body.len() < 2 {
        None
    } else if let Some(c) = simple_escape(body[1]) {
        match lua_string_value(body.skip(2)) {
            Some(rest) => Some(seq![c] + rest),
            None => None,
        }
    } else if is_digit(body[1]) {
        let n = escape_digits(body.skip(1));
        let code = numeral_value(body.subrange(1, 1 + n));
        if code < 128 {
            match lua_string_value(body.skip(1 + n)) {
                Some(rest) => Some(seq![code as char] + rest),
                None => None,
            }
        } else {
            None
        }
    } else {
        None
    }
}

/// What Lua reads from `c`'s text, followed by `t`.
pub open spec fn read_after(c: char, t: Seq<char>) -> Option<Seq<char>> {
    match lua_string_value(t) {
        Some(rest) => Some(seq![c] + rest),
        None => None,
    }
}

proof fn lemma_read_quoted_char(c: char, t: Seq<char>)
    ensures
        lua_string_value(quote_char(c) + t) == read_after(c, t),
        lua_string_value(text_quote_char(c) + t) == read_after(c, t),
{
    let body = quote_char(c) + t;
    let tbody = text_quote_char(c) + t;
    if c == '\\' || c == '\'' || c == '\n' || c == '\r' {
        assert(body.skip(2) =~= t);
    } else {
        assert(body.drop_first() =~= t);
    }
    if c == '\t' {
        assert(tbody.skip(2) =~= t);
    }
}

/// Lua reads back exactly the JSON string or key that the packager quoted:
/// every text becomes a valid single-quoted literal whose value is that text.
pub proof fn lemma_json_quoted_reads_back(s: Seq<char>)
    ensures
        lua_string_value(json_quoted(s)) == Some(s),
    decreases s.len(),
{
    if s.len() > 0 {
        lemma_json_quoted_reads_back(s.drop_first());
        lemma_read_quoted_char(s[0], json_quoted(s.drop_first()));
        assert(seq![s[0]] + s.drop_first() =~= s);
    }
}

/// Lua reads back the text of an imported file from the literal that the
/// packager writes, with its Windows line breaks as line feeds: every text
/// becomes a valid single-quoted literal.
pub proof fn lemma_text_quoted_reads_back(s: Seq<char>)
    ensures
        lua_string_value(text_quoted(s)) == Some(fold_crlf(s)),
    decreases s.len(),
{
    if s.len() > 0 {
        if starts_with_crlf(s) {
            lemma_text_quoted_reads_back(s.skip(2));
            let body = seq!['\\', 'n'] + text_quoted(s.skip(2));
            assert(body.skip(2) =~= text_quoted(s.skip(2)));
        } else {
            lemma_text_quoted_reads_back(s.drop_first());
            lemma_read_quoted_char(s[0], text_quoted(s.drop_first()));
        }
    }
}

/// A text without carriage returns reads back unchanged from its import.
pub proof fn lemma_fold_crlf_without_cr(s: Seq<char>)
    requires
        forall|i: int| 0 <= i < s.len() ==> s[i] != '\r',
    ensures
        fold_crlf(s) == s,
    decreases s.len(),
{
    if s.len() > 0 {
        lemma_fold_crlf_without_cr(s.drop_first());
        assert(seq![s[0]] + s.drop_first() =~= s);
    }
}

/// Appends `piece` to `out`.
fn push_all(out: &mut String, piece: &Vec<char>)
    ensures
        final(out)@ == old(out)@ + piece@,
{
    let ghost before = out@;
    let mut k: usize = 0;
    while k < piece.len()
        invariant
            k <= piece.len(),
            out@ == before + piece@.take(k as int),
        decreases piece.len() - k,
    {
        push_char(out, piece[k]);
        k += 1;
        assert(out@ =~= before + piece@.take(k as int));
    }
    assert(piece@.take(piece.len() as int) =~= piece@);
}

fn quote_char_exec(c: char) -> (r: Vec<char>)
    ensures
        r@ == quote_char(c),
{
    let r = if c == '\\' {
        vec!['\\', '\\']
    } else if c == '\'' {
        vec!['\\', '\'']
    } else if c == '\n' {
        vec!['\\', 'n']
    } else if c == '\r' {
        vec!['\\', 'r']
    } else {
        vec![c]
    };
    assert(r@ =~= quote_char(c));
    r
}

/// A JSON string or key as the packager writes it between single quotes:
/// see [`json_quoted`].
pub fn quote_json_string(s: &str) -> (r: String)
    ensures
        r@ == json_quoted(s@),
{
    let chars = chars_of(s);
    let mut r = String::new();
    let mut i: usize = 0;
    assert(chars@.skip(0) =~= chars@);
    while i < chars.len()
        invariant
            i <= chars.len(),
            r@ + json_quoted(chars@.skip(i as int)) == json_quoted(chars@),
        decreases chars.len() - i,
    {
        let ghost rest = chars@.skip(i as int);
        assert(rest.drop_first() =~= chars@.skip(i + 1));
        let piece = quote_char_exec(chars[i]);
        let ghost before = r@;
        push_all(&mut r, &piece);
        assert(r@ + json_quoted(chars@.skip(i + 1)) =~= before + json_quoted(rest));
        i += 1;
    }
    assert(chars@.skip(i as int) =~= Seq::<char>::empty());
    assert(r@ + json_quoted(chars@.skip(i as int)) =~= r@);
    r
}

/// The text of an imported file as the packager writes it between single
/// quotes: see [`text_quoted`].
pub fn quote_text(s: &str) -> (r: String)
    ensures
        r@ == text_quoted(s@),
{
    let chars = chars_of(s);
    let mut r = String::new();
    let mut i: usize = 0;
    assert(chars@.skip(0) =~= chars@);
    while i < chars.len()
        invariant
            i <= chars.len(),
            r@ + text_quoted(chars@.skip(i as int)) == text_quoted(chars@),
        decreases chars.len() - i,
    {
        let ghost rest = chars@.skip(i as int);
        let ghost before = r@;
        if i + 1 < chars.len() && chars[i] == '\r' && chars[i + 1] == '\n' {
            assert(starts_with_crlf(rest));
            assert(rest.skip(2) =~= chars@.skip(i + 2));
            push_char(&mut r, '\\');
            push_char(&mut r, 'n');
            assert(r@ + text_quoted(chars@.skip(i + 2)) =~= before + text_quoted(rest));
            i += 2;
        } else {
            assert(!starts_with_crlf(rest));
            assert(rest.drop_first() =~= chars@.skip(i + 1));
            let c = chars[i];
            if c == '\t' {
                push_char(&mut r, '\\');
                push_char(&mut r, 't');
                assert(r@ =~= before + text_quote_char(c));
            } else {
                let piece = quote_char_exec(c);
                push_all(&mut r, &piece);
            }
            assert(r@ + text_quoted(chars@.skip(i + 1)) =~= before + text_quoted(rest));
            i += 1;
        }
    }
    assert(chars@.skip(i as int) =~= Seq::<char>::empty());
    assert(r@ + text_quoted(chars@.skip(i as int)) =~= r@);
    r
}

/// A JSON string or key without a backslash, a quote, a line feed or a
/// carriage return is written as it is: tabs and other control characters
/// included.
pub proof fn lemma_json_quoted_plain(s: Seq<char>)
    requires
        forall|i: int|
            0 <= i < s.len() ==> #[trigger] s[i] != '\\' && s[i] != '\'' && s[i] != '\n' && s[i]
                != '\r',
    ensures
        json_quoted(s) == s,
    decreases s.len(),
{
    if s.len() > 0 {
        assert forall|i: int| 0 <= i < s.drop_first().len() implies #[trigger] s.drop_first()[i]
            != '\\' && s.drop_first()[i] != '\'' && s.drop_first()[i] != '\n' && s.drop_first()[i]
            != '\r' by {
            assert(s.drop_first()[i] == s[i + 1]);
        }
        lemma_json_quoted_plain(s.drop_first());
        assert(seq![s[0]] + s.drop_first() =~= s);
    }
}

/// The text of an imported file without a backslash, a quote, a line feed,
/// a carriage return or a tab is written as it is.
pub proof fn lemma_text_quoted_plain(s: Seq<char>)
    requires
        forall|i: int|
            0 <= i < s.len() ==> #[trigger] s[i] != '\\' && s[i] != '\'' && s[i] != '\n' && s[i]
                != '\r' && s[i] != '\t',
    ensures
        text_quoted(s) == s,
    decreases s.len(),
{
    if s.len() > 0 {
        assert forall|i: int| 0 <= i < s.drop_first().len() implies #[trigger] s.drop_first()[i]
            != '\\' && s.drop_first()[i] != '\'' && s.drop_first()[i] != '\n' && s.drop_first()[i]
            != '\r' && s.drop_first()[i] != '\t' by {
            assert(s.drop_first()[i] == s[i + 1]);
        }
        lemma_text_quoted_plain(s.drop_first());
        assert(seq![s[0]] + s.drop_first() =~= s);
    }
}

/// A Windows line break in an imported text is written as the two
/// characters `\n`, and a tab as `\t`, as the packager always did.
pub proof fn lemma_text_quoted_escapes(s: Seq<char>)
    ensures
        text_quoted(seq!['\r', '\n'] + s) == seq!['\\', 'n'] + text_quoted(s),
        text_quoted(seq!['\t'] + s) == seq!['\\', 't'] + text_quoted(s),
{
    assert((seq!['\r', '\n'] + s).skip(2) =~= s);
    assert((seq!['\t'] + s).drop_first() =~= s);
}

} // verus!
