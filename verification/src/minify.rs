//! Minification of the whitespace that surrounds each token.
//!
//! A token carries the trivia (whitespace, comments) written before it and
//! after it.  Minifying a token empties every non-empty run of whitespace
//! before it and turns every non-empty run of whitespace after it into one
//! space, except that the line break that ends a single-line comment is
//! kept as one line feed; comments and other trivia, and the token itself,
//! stay as they are.

use vstd::prelude::*;

use crate::text::{chars_of, push_char};

verus! {

/// One piece of trivia around a token: a run of whitespace, whose text the
/// minifier reads; a single-line comment (`-- ...`), which ends at the next
/// line break; or anything else (a block comment, say).  Comments are
/// carried as they are.
pub enum Trivia<T> {
    Whitespace(String),
    LineComment(T),
    Other(T),
}

/// A token together with the trivia written before and after it.
pub struct TokenRef<T> {
    pub leading: Vec<Trivia<T>>,
    pub token: T,
    pub trailing: Vec<Trivia<T>>,
}

/// `s` holds a line feed or a carriage return.
pub open spec fn has_line_break(s: Seq<char>) -> bool {
    exists|i: int| 0 <= i < s.len() && (s[i] == '\n' || s[i] == '\r')
}

/// Just before position `i` of `trivia`, a single-line comment is still
/// open: the last piece before `i` that is not whitespace without a line
/// break is a single-line comment.
pub open spec fn comment_open<T>(trivia: Seq<Trivia<T>>, i: int) -> bool
    decreases i,
{
    if i <= 0 || i > trivia.len() {
        false
    } else {
        match trivia[i - 1] {
            Trivia::LineComment(_) => true,
            Trivia::Whitespace(text) => !has_line_break(text@) && comment_open(trivia, i - 1),
            Trivia::Other(_) => false,
        }
    }
}

/// `after` is `before` minified with `filler`, where `open` tells whether a
/// single-line comment is open just before it: a run of whitespace with a
/// line break that ends an open single-line comment becomes one line feed,
/// so that the comment still ends there; any other non-empty run of
/// whitespace becomes `filler`; everything else is kept as it was.
pub open spec fn trivia_minified<T>(before: Trivia<T>, after: Trivia<T>, filler: Seq<char>, open: bool) -> bool {
    match before {
        Trivia::Whitespace(text) => after matches Trivia::Whitespace(new_text) && if open
            && has_line_break(text@) {
            new_text@ == seq!['\n']
        } else if text@.len() == 0 {
            new_text@ == text@
        } else {
            new_text@ == filler
        },
        _ => after == before,
    }
}

/// Each piece of `after` is the matching piece of `before`, minified.
pub open spec fn all_minified<T>(before: Seq<Trivia<T>>, after: Seq<Trivia<T>>, filler: Seq<char>) -> bool {
    &&& after.len() == before.len()
    &&& forall|i: int|
        0 <= i < before.len() ==> trivia_minified(
            #[trigger] before[i],
            after[i],
            filler,
            comment_open(before, i),
        )
}

/// The text of a piece of trivia, where it is whitespace.
pub open spec fn whitespace_text<T>(t: Trivia<T>) -> Option<Seq<char>> {
    match t {
        Trivia::Whitespace(text) => Some(text@),
        _ => None,
    }
}

/// `a` and `b` hold the same trivia: equal whitespace text, identical other pieces.
pub open spec fn same_trivia<T>(a: Seq<Trivia<T>>, b: Seq<Trivia<T>>) -> bool {
    &&& a.len() == b.len()
    &&& forall|i: int| 0 <= i < a.len() ==> match (#[trigger] a[i], b[i]) {
        (Trivia::Whitespace(x), Trivia::Whitespace(y)) => x@ == y@,
        (Trivia::Whitespace(_), _) => false,
        (_, Trivia::Whitespace(_)) => false,
        (x, y) => x == y,
    }
}

/// Whether a string holds a line feed or a carriage return.
pub fn contains_line_break(text: &String) -> (r: bool)
    ensures
        r == has_line_break(text@),
{
    let chars = chars_of(text.as_str());
    let mut i: usize = 0;
    while i < chars.len()
        invariant
            i <= chars.len(),
            chars@ == text@,
            forall|j: int| 0 <= j < i ==> !(chars@[j] == '\n' || chars@[j] == '\r'),
        decreases chars.len() - i,
    {
        if chars[i] == '\n' || chars[i] == '\r' {
            return true;
        }
        i += 1;
    }
    false
}

/// Minifies each piece of `trivia`: see [`all_minified`].
pub fn minify_trivia<T>(trivia: Vec<Trivia<T>>, filler: &String) -> (r: Vec<Trivia<T>>)
    ensures
        all_minified(trivia@, r@, filler@),
{
    let mut r: Vec<Trivia<T>> = Vec::new();
    let ghost before = trivia@;
    let mut open = false;
    for piece in it: trivia.into_iter()
        invariant
            it.seq() == before,
            r@.len() == it.index(),
            open == comment_open(before, it.index() as int),
            forall|i: int|
                0 <= i < it.index() ==> trivia_minified(
                    #[trigger] before[i],
                    r@[i],
                    filler@,
                    comment_open(before, i),
                ),
    {
        let new_piece = match piece {
            Trivia::Whitespace(text) => {
                let line_break = contains_line_break(&text);
                if open && line_break {
                    let mut newline = String::new();
                    push_char(&mut newline, '\n');
                    open = false;
                    Trivia::Whitespace(newline)
                } else {
                    if line_break {
                        open = false;
                    }
                    if text.as_str().is_empty() {
                        Trivia::Whitespace(text)
                    } else {
                        Trivia::Whitespace(filler.clone())
                    }
                }
            },
            Trivia::LineComment(t) => {
                open = true;
                Trivia::LineComment(t)
            },
            Trivia::Other(t) => {
                open = false;
                Trivia::Other(t)
            },
        };
        r.push(new_piece);
    }
    r
}

/// The minifier: it holds no state.
pub struct MinifyVisiter {}

impl Default for MinifyVisiter {
    fn default() -> (r: Self)
        ensures
            r == (MinifyVisiter {}),
    {
        MinifyVisiter {}
    }
}

impl MinifyVisiter {
    /// Minifies the trivia around one token: non-empty whitespace before it
    /// becomes empty, non-empty whitespace after it becomes a single space,
    /// and in both lists whitespace with a line break that ends a
    /// single-line comment becomes one line feed (see [`all_minified`]).
    pub fn visit_token_reference<T>(&mut self, node: TokenRef<T>) -> (r: TokenRef<T>)
        ensures
            *final(self) == *old(self),
            r.token == node.token,
            all_minified(node.leading@, r.leading@, Seq::<char>::empty()),
            all_minified(node.trailing@, r.trailing@, seq![' ']),
    {
        let TokenRef { leading, token, trailing } = node;
        let nothing = String::new();
        let mut space = String::new();
        push_char(&mut space, ' ');
        let leading = minify_trivia(leading, &nothing);
        let trailing = minify_trivia(trailing, &space);
        TokenRef { leading, token, trailing }
    }
}

/// Minifying keeps every comment open exactly where it was open, when the
/// filler holds no line break.
proof fn lemma_comment_open_kept<T>(original: Seq<Trivia<T>>, once: Seq<Trivia<T>>, filler: Seq<char>, i: int)
    requires
        all_minified(original, once, filler),
        !has_line_break(filler),
        0 <= i <= original.len(),
    ensures
        comment_open(once, i) == comment_open(original, i),
    decreases i,
{
    if i > 0 {
        lemma_comment_open_kept(original, once, filler, i - 1);
        assert(trivia_minified(original[i - 1], once[i - 1], filler, comment_open(original, i - 1)));
        match original[i - 1] {
            Trivia::Whitespace(text) => {
                let new_text = whitespace_text(once[i - 1]).unwrap();
                if comment_open(original, i - 1) && has_line_break(text@) {
                    assert(new_text == seq!['\n']);
                    assert(new_text[0] == '\n');
                } else if text@.len() == 0 {
                } else {
                }
            },
            _ => {},
        }
    }
}

/// Minification is idempotent: minifying trivia that is already minified
/// with the same filler (one without a line break) changes nothing.
pub proof fn lemma_minify_idempotent<T>(
    original: Seq<Trivia<T>>,
    once: Seq<Trivia<T>>,
    twice: Seq<Trivia<T>>,
    filler: Seq<char>,
)
    requires
        all_minified(original, once, filler),
        all_minified(once, twice, filler),
        !has_line_break(filler),
    ensures
        same_trivia(once, twice),
{
    assert forall|i: int| 0 <= i < once.len() implies match (#[trigger] once[i], twice[i]) {
        (Trivia::Whitespace(x), Trivia::Whitespace(y)) => x@ == y@,
        (Trivia::Whitespace(_), _) => false,
        (_, Trivia::Whitespace(_)) => false,
        (x, y) => x == y,
    } by {
        lemma_comment_open_kept(original, once, filler, i);
        assert(trivia_minified(original[i], once[i], filler, comment_open(original, i)));
        assert(trivia_minified(once[i], twice[i], filler, comment_open(once, i)));
        match original[i] {
            Trivia::Whitespace(text) => {
                let t1 = whitespace_text(once[i]).unwrap();
                if comment_open(original, i) && has_line_break(text@) {
                    assert(t1[0] == '\n');
                    assert(has_line_break(t1));
                }
            },
            _ => {},
        }
    }
}

/// After minification every run of whitespace is empty, the filler, or a
/// single line feed (the one that ends a single-line comment).
pub proof fn lemma_minified_whitespace<T>(original: Seq<Trivia<T>>, minified: Seq<Trivia<T>>, filler: Seq<char>)
    requires
        all_minified(original, minified, filler),
    ensures
        forall|i: int|
            0 <= i < minified.len() ==> (#[trigger] whitespace_text(minified[i]) matches Some(text)
                ==> text.len() == 0 || text == filler || text == seq!['\n']),
{
    assert forall|i: int| 0 <= i < minified.len() implies (#[trigger] whitespace_text(minified[i]) matches Some(
        text,
    ) ==> text.len() == 0 || text == filler || text == seq!['\n']) by {
        assert(trivia_minified(original[i], minified[i], filler, comment_open(original, i)));
    }
}

proof fn lemma_open_after_comment<T>(trivia: Seq<Trivia<T>>, i: int, j: int)
    requires
        0 <= i < j <= trivia.len(),
        trivia[i] is LineComment,
        forall|k: int| i < k < j ==> (#[trigger] whitespace_text(trivia[k]) matches Some(text) && !has_line_break(text)),
    ensures
        comment_open(trivia, j),
    decreases j - i,
{
    if j > i + 1 {
        lemma_open_after_comment(trivia, i, j - 1);
        assert(whitespace_text(trivia[j - 1]) matches Some(text) && !has_line_break(text));
    }
}

/// No code is swallowed by a comment: when a single-line comment is
/// followed, across whitespace without line breaks, by whitespace with a
/// line break, that whitespace becomes a line feed after minification, so
/// the comment still ends before whatever comes next.
pub proof fn lemma_line_comment_still_ends<T>(
    original: Seq<Trivia<T>>,
    minified: Seq<Trivia<T>>,
    filler: Seq<char>,
    i: int,
    j: int,
)
    requires
        all_minified(original, minified, filler),
        0 <= i < j < original.len(),
        original[i] is LineComment,
        forall|k: int| i < k < j ==> (#[trigger] whitespace_text(original[k]) matches Some(text) && !has_line_break(text)),
        whitespace_text(original[j]) matches Some(text) && has_line_break(text),
    ensures
        minified[i] == original[i],
        whitespace_text(minified[j]) == Some(seq!['\n']),
{
    lemma_open_after_comment(original, i, j);
    assert(trivia_minified(original[i], minified[i], filler, comment_open(original, i)));
    assert(trivia_minified(original[j], minified[j], filler, comment_open(original, j)));
}

proof fn lemma_no_comment_not_open<T>(trivia: Seq<Trivia<T>>, i: int)
    requires
        0 <= i <= trivia.len(),
        forall|k: int| 0 <= k < i ==> !(#[trigger] trivia[k] is LineComment),
    ensures
        !comment_open(trivia, i),
    decreases i,
{
    if i > 0 {
        lemma_no_comment_not_open(trivia, i - 1);
    }
}

/// What minification does to each piece of trivia: comments and other
/// non-whitespace pieces are kept as they are; empty whitespace stays empty;
/// non-empty whitespace becomes exactly the filler (never anything shorter)
/// when it holds no line break, or when no single-line comment comes before
/// it in the list; only whitespace with a line break right after a
/// single-line comment (with nothing but break-free whitespace between)
/// becomes a line feed instead.
pub proof fn lemma_minify_piece_meaning<T>(
    before: Seq<Trivia<T>>,
    after: Seq<Trivia<T>>,
    filler: Seq<char>,
    i: int,
)
    requires
        all_minified(before, after, filler),
        0 <= i < before.len(),
    ensures
        after.len() == before.len(),
        !(before[i] is Whitespace) ==> after[i] == before[i],
        before[i] is Whitespace ==> after[i] is Whitespace,
        before[i] is Whitespace && before[i]->Whitespace_0@.len() == 0 ==> after[i]->Whitespace_0@.len()
            == 0,
        before[i] is Whitespace && before[i]->Whitespace_0@.len() > 0 && (forall|k: int|
            0 <= k < before[i]->Whitespace_0@.len() ==> #[trigger] before[i]->Whitespace_0@[k]
                != '\n' && before[i]->Whitespace_0@[k] != '\r') ==> after[i]->Whitespace_0@ == filler,
        before[i] is Whitespace && before[i]->Whitespace_0@.len() > 0 && (forall|k: int|
            0 <= k < i ==> !(#[trigger] before[k] is LineComment)) ==> after[i]->Whitespace_0@ == filler,
        before[i] is Whitespace && (exists|k: int|
            0 <= k < before[i]->Whitespace_0@.len() && before[i]->Whitespace_0@[k] == '\n') && i > 0
            && before[i - 1] is LineComment ==> after[i]->Whitespace_0@ == seq!['\n'],
{
    assert(trivia_minified(before[i], after[i], filler, comment_open(before, i)));
    if forall|k: int| 0 <= k < i ==> !(#[trigger] before[k] is LineComment) {
        lemma_no_comment_not_open(before, i);
    }
    if i > 0 && before[i - 1] is LineComment {
        assert(comment_open(before, i));
    }
}

} // verus!
