//! The packager's visitor: the state it keeps while it walks one Lua file,
//! and the decisions it takes on the nodes it meets.
//!
//! * A string value that asks for an import (see [`crate::import`]) is
//!   replaced by the imported file: raw files become a table of their
//!   bytes, `.json` files the Lua table they describe, and other files a
//!   string literal of their text.
//! * A call of `_load` (see [`crate::load`]) is replaced by a function whose
//!   body is the named module, itself packaged; a module that loads the file
//!   that loaded it gets an empty body instead.
//! * Every statement of a block is ended with `;`.

use std::path::PathBuf;

use vstd::prelude::*;

use crate::import::{import_directive, import_of_content, Import, ImportFormat};
use crate::json::{json_document, parse_json};
use crate::load::{
    child_state, is_load_prefix, load_step, load_action, load_complaint, load_file_name, load_name,
    load_panics, LoadAction, LoadArgument, LoadCall, LoadComplaint, LoadPlan,
};
use crate::lua::{byte_table, lua_of_json, JsonValue, LuaField, LuaValue};
use crate::text::{
    chars_eq, chars_of, decimal, push_char, push_decimal, string_of, trim_exec,
};
use crate::quote::{json_quoted, quote_json_string, quote_text, text_quoted};
use crate::token::{token_name, token_name_spec, TokenKind};

verus! {

#[verifier::external_type_specification]
#[verifier::external_body]
pub struct ExPathBuf(PathBuf);

/// An empty path.
///
/// Trusted: `PathBuf::new`.  Nothing is stated of the path: the library
/// carries paths and never looks inside them.
#[verifier::external_body]
fn empty_path() -> PathBuf {
    PathBuf::new()
}

/// The state of the visitor, as plain values.
pub struct VisitorState {
    /// The directory that the file being visited lies in.
    pub project_dir: PathBuf,
    /// The files that this visit has imported or loaded so far, in order.
    pub imports: Seq<Seq<char>>,
    /// The files that the visit of the including file had imported when it
    /// started this one.
    pub previous_imports: Seq<Seq<char>>,
    /// The name of the file that loaded this one.
    pub previous_file_name: Seq<char>,
    /// The name of the file being visited.
    pub file_name: Seq<char>,
}

/// The text of each string, in order.
pub open spec fn texts(v: Seq<String>) -> Seq<Seq<char>> {
    v.map_values(|s: String| s@)
}

/// The visitor that packages one Lua file.
pub struct VistAst {
    project_dir: PathBuf,
    imports: Vec<String>,
    previous_imports: Vec<String>,
    previous_file_name: String,
    file_name: String,
}

impl View for VistAst {
    type V = VisitorState;

    closed spec fn view(&self) -> VisitorState {
        VisitorState {
            project_dir: self.project_dir,
            imports: texts(self.imports@),
            previous_imports: texts(self.previous_imports@),
            previous_file_name: self.previous_file_name@,
            file_name: self.file_name@,
        }
    }
}

impl Default for VistAst {
    /// A visitor with no file name, no imports and an empty project
    /// directory.
    fn default() -> (r: Self)
        ensures
            r@.imports == Seq::<Seq<char>>::empty(),
            r@.previous_imports == Seq::<Seq<char>>::empty(),
            r@.previous_file_name == Seq::<char>::empty(),
            r@.file_name == Seq::<char>::empty(),
    {
        let r = VistAst {
            project_dir: empty_path(),
            imports: Vec::new(),
            previous_imports: Vec::new(),
            previous_file_name: String::new(),
            file_name: String::new(),
        };
        assert(texts(r.imports@) =~= Seq::<Seq<char>>::empty());
        assert(texts(r.previous_imports@) =~= Seq::<Seq<char>>::empty());
        r
    }
}

/// A copy of a list of strings.
fn copy_strings(v: &Vec<String>) -> (r: Vec<String>)
    ensures
        r@ == v@,
        texts(r@) == texts(v@),
{
    let mut r: Vec<String> = Vec::new();
    let mut i: usize = 0;
    while i < v.len()
        invariant
            i <= v.len(),
            r@ == v@.take(i as int),
        decreases v.len() - i,
    {
        let c = v[i].clone();
        r.push(c);
        i += 1;
        assert(r@ =~= v@.take(i as int));
    }
    assert(v@.take(v.len() as int) =~= v@);
    r
}

/// The Lua value of a JSON value: see [`lua_of_json`].
fn lua_value_of_json(json: &JsonValue) -> (r: LuaValue)
    ensures
        lua_of_json(*json, r),
    decreases json,
{
    match json {
        JsonValue::Null => LuaValue::Nil,
        JsonValue::Bool(b) => if *b {
            LuaValue::True
        } else {
            LuaValue::False
        },
        JsonValue::Number(n) => LuaValue::Number(n.clone()),
        JsonValue::Str(text) => LuaValue::Str(quote_json_string(text.as_str())),
        JsonValue::Array(elems) => {
            let mut fields: Vec<LuaField> = Vec::new();
            let mut i: usize = 0;
            while i < elems.len()
                invariant
                    *json == JsonValue::Array(*elems),
                    i <= elems.len(),
                    fields@.len() == i,
                    forall|j: int|
                        0 <= j < i ==> (#[trigger] fields@[j] matches LuaField::Positional(v)
                            && lua_of_json(elems@[j], v)),
                decreases elems.len() - i,
            {
                proof {
                    let ghost e = (*json)->Array_0;
                    assert(decreases_to!(*json => e));
                }
                let v = lua_value_of_json(&elems[i]);
                fields.push(LuaField::Positional(v));
                i += 1;
            }
            LuaValue::Table(fields)
        },
        JsonValue::Object(members) => {
            let mut fields: Vec<LuaField> = Vec::new();
            let mut i: usize = 0;
            while i < members.len()
                invariant
                    *json == JsonValue::Object(*members),
                    i <= members.len(),
                    fields@.len() == i,
                    forall|j: int|
                        0 <= j < i ==> (#[trigger] fields@[j] matches LuaField::Keyed(k, v)
                            && k@ == json_quoted(members@[j].0@) && lua_of_json(members@[j].1, v)),
                decreases members.len() - i,
            {
                proof {
                    let ghost m = (*json)->Object_0;
                    assert(decreases_to!(*json => m));
                }
                let v = lua_value_of_json(&members[i].1);
                fields.push(LuaField::Keyed(quote_json_string(members[i].0.as_str()), v));
                i += 1;
            }
            LuaValue::Table(fields)
        },
    }
}

impl VistAst {
    /// Sets the directory that the visited file lies in.
    pub fn set_project_dir(&mut self, project_dir: PathBuf)
        ensures
            final(self)@ == (VisitorState { project_dir, ..old(self)@ }),
    {
        self.project_dir = project_dir;
    }

    /// Sets the name of the visited file.
    pub fn set_file_name(&mut self, file_name: &str)
        ensures
            final(self)@ == (VisitorState { file_name: file_name@, ..old(self)@ }),
    {
        self.file_name = file_name.to_owned();
    }

    /// Sets the files that the including file had imported.
    pub fn set_previous_imports(&mut self, previous_imports: &Vec<String>)
        ensures
            final(self)@ == (VisitorState { previous_imports: texts(previous_imports@), ..old(self)@ }),
    {
        self.previous_imports = copy_strings(previous_imports);
    }

    /// The directory that the visited file lies in.
    pub fn project_dir(&self) -> (r: &PathBuf)
        ensures
            *r == self@.project_dir,
    {
        &self.project_dir
    }

    /// Where in the visited file a message is about: `name @ line:column`.
    pub fn make_file_info(&self, line: usize, character: usize) -> (r: String)
        ensures
            r@ == self@.file_name + seq![' ', '@', ' '] + decimal(line as nat) + seq![':']
                + decimal(character as nat),
    {
        let mut r = self.file_name.clone();
        push_char(&mut r, ' ');
        push_char(&mut r, '@');
        push_char(&mut r, ' ');
        push_decimal(&mut r, line as u64);
        push_char(&mut r, ':');
        push_decimal(&mut r, character as u64);
        r
    }

    /// Reads a string value: if its contents ask for an import (see
    /// [`import_directive`]), returns the import and records the file among
    /// this visit's imports.
    pub fn visit_string_value(&mut self, token: &TokenKind) -> (r: Option<Import>)
        ensures
            match import_directive(token_name_spec(*token)) {
                None => r is None && final(self)@ == old(self)@,
                Some((name, raw)) => r matches Some(imp) && imp.file_name@ == name && imp.raw
                    == raw && final(self)@ == (VisitorState {
                    imports: old(self)@.imports.push(name),
                    ..old(self)@
                }),
            },
    {
        let content = token_name(token);
        let content = chars_of(content.as_str());
        let r = import_of_content(&content);
        match &r {
            Some(imp) => {
                let ghost before = self.imports@;
                self.imports.push(imp.file_name.clone());
                assert(texts(self.imports@) =~= texts(before).push(imp.file_name@));
            },
            None => {},
        }
        r
    }

    /// How an imported file becomes a Lua value: raw imports become byte
    /// tables; other files by their extension, `json` files as JSON and the
    /// rest as text.  A file imported as text must have an extension.
    pub fn import_format(&self, import: &Import, extension: Option<&str>) -> (r: ImportFormat)
        requires
            import.raw || extension is Some,
        ensures
            import.raw ==> r is Bytes,
            !import.raw ==> (r is Json <==> extension.unwrap()@ == seq!['j', 's', 'o', 'n']),
            !import.raw ==> (r is Text <==> extension.unwrap()@ != seq!['j', 's', 'o', 'n']),
    {
        if import.raw {
            return ImportFormat::Bytes;
        }
        let ext = chars_of(extension.unwrap());
        let json = vec!['j', 's', 'o', 'n'];
        assert(json@ =~= seq!['j', 's', 'o', 'n']);
        if chars_eq(&ext, &json) {
            ImportFormat::Json
        } else {
            ImportFormat::Text
        }
    }

    /// The table of numbers that a file imported raw becomes: see
    /// [`byte_table`].
    pub fn raw_import_value(&self, bytes: &Vec<u8>) -> (r: LuaValue)
        ensures
            byte_table(bytes@, r),
    {
        let mut fields: Vec<LuaField> = Vec::new();
        let mut i: usize = 0;
        while i < bytes.len()
            invariant
                i <= bytes.len(),
                fields@.len() == i,
                forall|j: int|
                    0 <= j < i ==> (#[trigger] fields@[j] matches LuaField::Positional(v)
                        && v matches LuaValue::Number(t) && t@ == decimal(bytes@[j] as nat)),
            decreases bytes.len() - i,
        {
            let mut text = String::new();
            push_decimal(&mut text, bytes[i] as u64);
            fields.push(LuaField::Positional(LuaValue::Number(text)));
            i += 1;
        }
        LuaValue::Table(fields)
    }

    /// The contents of the single-quoted string literal that an imported
    /// text file becomes: the text quoted by [`text_quoted`], so that Lua
    /// reads it back as the file's text with its Windows line breaks as line
    /// feeds (see [`crate::quote::lemma_text_quoted_reads_back`]).
    pub fn text_import_literal(&self, content: &str) -> (r: String)
        ensures
            r@ == text_quoted(content@),
    {
        quote_text(content)
    }
    /// The Lua value that an imported JSON file with the text `content`
    /// becomes, or `None` when the text is not a JSON document (the string
    /// that asked for the import is then kept).
    pub fn json_import_value(&mut self, content: &str) -> (r: Option<LuaValue>)
        ensures
            *final(self) == *old(self),
            match json_document(content@) {
                Some(j) => r matches Some(v) && lua_of_json(j, v),
                None => r is None,
            },
    {
        match parse_json(content) {
            Some(json) => Some(lua_value_of_json(&json)),
            None => None,
        }
    }

    /// The Lua value that an imported JSON document becomes: see
    /// [`lua_of_json`].
    pub fn json_value_to_lua(&mut self, json: &JsonValue) -> (r: LuaValue)
        ensures
            *final(self) == *old(self),
            lua_of_json(*json, r),
    {
        lua_value_of_json(json)
    }
}

/// The separator is `;`.
pub open spec fn is_semicolon(separator: Option<String>) -> bool {
    separator matches Some(text) && text@ == seq![';']
}

/// A statement is ended by exactly one `;` and nothing else: no separator,
/// or any other text, is not a semicolon.
pub proof fn lemma_is_semicolon_meaning(separator: Option<String>)
    ensures
        is_semicolon(separator) <==> (separator is Some && separator->0@.len() == 1
            && separator->0@[0] == ';'),
{
    if separator is Some && separator->0@.len() == 1 && separator->0@[0] == ';' {
        assert(separator->0@ =~= seq![';']);
    }
}

impl VistAst {
    /// Decides what happens to a function call whose prefix prints as
    /// `prefix`: calls of `_load` with a string naming a file other than the
    /// one that loaded this file load it, and record it among this visit's
    /// imports.
    pub fn plan_load(&mut self, prefix: &str, call: LoadCall) -> (r: LoadPlan)
        requires
            !load_panics(prefix@, call),
        ensures
            load_step(prefix@, call, old(self)@, r, final(self)@),
    {
        let text = chars_of(prefix);
        let trimmed = trim_exec(&text);
        let load = vec!['_', 'l', 'o', 'a', 'd'];
        assert(load@ =~= load_name());
        if !chars_eq(&trimmed, &load) {
            return LoadPlan::Keep;
        }
        let (complaint, file_name) = match call {
            LoadCall::NotCall => {
                return LoadPlan::EmptyFunction;
            },
            LoadCall::Parentheses(arg) => match arg {
                Some(LoadArgument::StringValue(token)) => (None, token_name(&token)),
                Some(LoadArgument::OtherValue) => (Some(LoadComplaint::NotAString), String::new()),
                Some(LoadArgument::OtherExpression) => (
                    Some(LoadComplaint::NotAValue),
                    String::new(),
                ),
                None => (None, String::new()),
            },
            LoadCall::TableArgument => (Some(LoadComplaint::InvalidArguments), String::new()),
            LoadCall::NoSuffix => (None, String::new()),
            LoadCall::StringShorthand => (None, String::new()),
        };
        let action = if file_name.as_str().is_empty() {
            LoadAction::Nothing
        } else if file_name == self.previous_file_name {
            LoadAction::Circular
        } else {
            let ghost before = self.imports@;
            self.imports.push(file_name.clone());
            assert(texts(self.imports@) =~= texts(before).push(file_name@));
            LoadAction::Load
        };
        LoadPlan::Called { complaint, file_name, action }
    }

    /// The visitor for a file that this visit loads: it visits `file_name`,
    /// which lies in `project_dir`, has imported nothing yet, and knows this
    /// visit's imports and this file as the file that loaded it.
    pub fn child_for_load(&self, project_dir: PathBuf, file_name: &str) -> (r: VistAst)
        ensures
            r@ == child_state(self@, project_dir, file_name@),
    {
        let mut child = VistAst::default();
        child.set_project_dir(project_dir);
        child.set_file_name(file_name);
        child.previous_imports = copy_strings(&self.imports);
        child.previous_file_name = self.file_name.clone();
        child
    }

    /// Ends every statement of a block with `;`: the statements stay as they
    /// are and in order, and each is followed by the separator `;`.
    pub fn visit_block<S, P>(&mut self, stmts: Vec<(S, Option<P>)>) -> (r: Vec<(S, Option<String>)>)
        ensures
            *final(self) == *old(self),
            r@.len() == stmts@.len(),
            forall|i: int|
                0 <= i < stmts@.len() ==> (#[trigger] r@[i]).0 == stmts@[i].0 && is_semicolon(r@[i].1),
    {
        let mut r: Vec<(S, Option<String>)> = Vec::new();
        let ghost before = stmts@;
        for pair in it: stmts.into_iter()
            invariant
                it.seq() == before,
                r@.len() == it.index(),
                forall|i: int|
                    0 <= i < it.index() ==> (#[trigger] r@[i]).0 == before[i].0 && is_semicolon(r@[i].1),
        {
            let (stmt, _old_separator) = pair;
            let mut sep = String::new();
            push_char(&mut sep, ';');
            r.push((stmt, Some(sep)));
        }
        r
    }
}

} // verus!
