//! Import directives: the string values that ask for a file to be
//! imported.
//!
//! A string value `'!import name'` imports the file `name`; with the suffix
//! `?raw` (`'!import name?raw'`) the file's bytes are wanted instead of its
//! text.

use vstd::prelude::*;

use crate::text::{
    chars_from, chars_take, contains, find_first, is_first_occurrence, occurs_at, occurs_at_exec,
    starts_with, string_of,
};

verus! {

/// The text that marks a string value as an import: `!import `.
pub open spec fn import_marker() -> Seq<char> {
    seq!['!', 'i', 'm', 'p', 'o', 'r', 't', ' ']
}

/// The suffix that asks for a file's raw bytes: `?raw`.
pub open spec fn raw_marker() -> Seq<char> {
    seq!['?', 'r', 'a', 'w']
}

/// The import that a string value's contents ask for, if they ask for one:
/// the name of the file and whether its raw bytes are wanted.  The contents
/// must start with `!import `; the name is what follows, up to the first
/// `?raw` if there is one, which makes the import raw.
pub open spec fn import_directive(content: Seq<char>) -> Option<(Seq<char>, bool)> {
    if starts_with(content, import_marker()) {
        let rest = content.skip(import_marker().len() as int);
        if contains(rest, raw_marker()) {
            let i = choose|i: int| is_first_occurrence(rest, raw_marker(), i);
            Some((rest.take(i), true))
        } else {
            Some((rest, false))
        }
    } else {
        None
    }
}

/// `'!import name'` asks for the file `name`, not raw, when `name` holds no
/// `?raw`.
pub proof fn lemma_import_plain(name: Seq<char>)
    requires
        !contains(name, raw_marker()),
    ensures
        import_directive(import_marker() + name) == Some((name, false)),
{
    let s = import_marker() + name;
    assert(s.subrange(0, import_marker().len() as int) =~= import_marker());
    assert(s.skip(import_marker().len() as int) =~= name);
}

proof fn lemma_raw_marker_first(name: Seq<char>, suffix: Seq<char>)
    requires
        !contains(name, raw_marker()),
    ensures
        is_first_occurrence(name + raw_marker() + suffix, raw_marker(), name.len() as int),
{
    let rest = name + raw_marker() + suffix;
    let n = name.len() as int;
    assert(rest.subrange(n, n + 4) =~= raw_marker());
    assert forall|j: int| 0 <= j < n implies !occurs_at(rest, raw_marker(), j) by {
        if occurs_at(rest, raw_marker(), j) {
            if j + 4 <= n {
                assert(name.subrange(j, j + 4) =~= rest.subrange(j, j + 4));
                assert(occurs_at(name, raw_marker(), j));
            } else {
                assert(rest[n] == '?');
                assert(rest.subrange(j, j + 4)[n - j] == rest[n]);
            }
        }
    }
}

/// `'!import name?raw...'` asks for the raw bytes of the file `name`,
/// whatever follows `?raw`, when `name` holds no `?raw`.
pub proof fn lemma_import_raw(name: Seq<char>, suffix: Seq<char>)
    requires
        !contains(name, raw_marker()),
    ensures
        import_directive(import_marker() + name + raw_marker() + suffix) == Some((name, true)),
{
    let s = import_marker() + name + raw_marker() + suffix;
    let rest = name + raw_marker() + suffix;
    let n = name.len() as int;
    assert(s.subrange(0, import_marker().len() as int) =~= import_marker());
    assert(s.skip(import_marker().len() as int) =~= rest);
    lemma_raw_marker_first(name, suffix);
    let k = choose|k: int| is_first_occurrence(rest, raw_marker(), k);
    crate::text::lemma_first_occurrence_unique(rest, raw_marker(), n, k);
    assert(rest.take(n) =~= name);
}

/// What a string's contents ask for: no import unless they start with
/// `!import `; otherwise the file named by what follows, up to the first
/// `?raw`, which (if present) makes the import raw.  Put back together, the
/// marker, the name and (for a raw import) `?raw` and whatever follows it
/// give the contents again, and the name never holds `?raw`.  In particular
/// the empty string, like any string without the marker, asks for nothing.
pub proof fn lemma_import_directive_meaning(content: Seq<char>)
    ensures
        import_directive(content) is None <== !(content.len() >= 8 && content.take(8) == seq![
            '!',
            'i',
            'm',
            'p',
            'o',
            'r',
            't',
            ' ',
        ]),
        import_directive(content) is Some <== (content.len() >= 8 && content.take(8) == seq![
            '!',
            'i',
            'm',
            'p',
            'o',
            'r',
            't',
            ' ',
        ]),
        import_directive(content) matches Some((name, raw)) ==> {
            &&& forall|j: int| 0 <= j && j + 4 <= name.len() ==> #[trigger] name.subrange(j, j + 4) != seq!['?', 'r', 'a', 'w']
            &&& !raw ==> content == seq!['!', 'i', 'm', 'p', 'o', 'r', 't', ' '] + name
            &&& raw ==> content == seq!['!', 'i', 'm', 'p', 'o', 'r', 't', ' '] + name + seq![
                '?',
                'r',
                'a',
                'w',
            ] + content.skip(name.len() as int + 12)
        },
{
    let marker = seq!['!', 'i', 'm', 'p', 'o', 'r', 't', ' '];
    let raw_mark = seq!['?', 'r', 'a', 'w'];
    assert(import_marker() =~= marker);
    assert(raw_marker() =~= raw_mark);
    if content.len() >= 8 && content.take(8) == marker {
        assert(content.subrange(0, 8) =~= content.take(8));
        let rest = content.skip(8);
        if contains(rest, raw_mark) {
            let k = choose|k: int| occurs_at(rest, raw_mark, k);
            crate::text::lemma_first_occurrence_exists(rest, raw_mark, k);
            let i = choose|i: int| is_first_occurrence(rest, raw_mark, i);
            let name = rest.take(i);
            let suffix = rest.skip(i + 4);
            assert(rest.subrange(i, i + 4) =~= raw_mark);
            assert(suffix =~= content.skip(name.len() as int + 12));
            assert(content =~= marker + name + raw_mark + suffix);
            assert forall|j: int| 0 <= j && j + 4 <= name.len() implies #[trigger] name.subrange(j, j + 4)
                != raw_mark by {
                assert(name.subrange(j, j + 4) =~= rest.subrange(j, j + 4));
                assert(!occurs_at(rest, raw_mark, j));
            }
        } else {
            assert(content =~= marker + rest);
            assert forall|j: int| 0 <= j && j + 4 <= rest.len() implies #[trigger] rest.subrange(j, j + 4)
                != raw_mark by {
                assert(!occurs_at(rest, raw_mark, j));
            }
        }
    } else {
        if content.len() >= 8 {
            assert(content.subrange(0, 8) =~= content.take(8));
        }
    }
}

/// An import that a string value asks for.
pub struct Import {
    /// The file to import, relative to the project directory.
    pub file_name: String,
    /// Whether the file's raw bytes are wanted.
    pub raw: bool,
}

/// How an imported file becomes a Lua value.
pub enum ImportFormat {
    /// As a table of its bytes.
    Bytes,
    /// As the Lua value of the JSON document that it holds.
    Json,
    /// As a string literal of its text.
    Text,
}

/// The contents of a string literal as [`import_directive`] reads them.
pub(crate) fn import_of_content(content: &Vec<char>) -> (r: Option<Import>)
    ensures
        match import_directive(content@) {
            None => r is None,
            Some((name, raw)) => r matches Some(imp) && imp.file_name@ == name && imp.raw == raw,
        },
{
    let marker = vec!['!', 'i', 'm', 'p', 'o', 'r', 't', ' '];
    assert(marker@ =~= import_marker());
    if !occurs_at_exec(content, &marker, 0) {
        return None;
    }
    let rest = chars_from(content, marker.len());
    let raw_mark = vec!['?', 'r', 'a', 'w'];
    assert(raw_mark@ =~= raw_marker());
    match find_first(&rest, &raw_mark) {
        Some(i) => {
            proof {
                let k = choose|k: int| is_first_occurrence(rest@, raw_marker(), k);
                assert(is_first_occurrence(rest@, raw_marker(), i as int));
                crate::text::lemma_first_occurrence_unique(rest@, raw_marker(), i as int, k);
            }
            let name = chars_take(&rest, i);
            Some(Import { file_name: string_of(&name), raw: true })
        },
        None => Some(Import { file_name: string_of(&rest), raw: false }),
    }
}

} // verus!
