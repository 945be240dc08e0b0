//! Loads: calls `_load("name")`, which the packager replaces by a
//! function whose body is the module `name`, itself packaged.

use std::path::PathBuf;

use vstd::prelude::*;

use crate::text::trim;
use crate::token::{token_name_spec, TokenKind};
use crate::visitor::VisitorState;

verus! {

/// The name of the load function: `_load`.
pub open spec fn load_name() -> Seq<char> {
    seq!['_', 'l', 'o', 'a', 'd']
}

/// The first argument of a `_load(...)` call, as far as the packager reads it.
pub enum LoadArgument {
    /// A string value, with its token.
    StringValue(TokenKind),
    /// A value that is not a string.
    OtherValue,
    /// An expression that is not a plain value.
    OtherExpression,
}

/// What follows the name `_load`, as far as the packager reads it.
pub enum LoadCall {
    /// Nothing: the name is not followed by any suffix.
    NoSuffix,
    /// An index or a method call, not a plain call.
    NotCall,
    /// A call with parenthesised arguments, with its first argument if any.
    Parentheses(Option<LoadArgument>),
    /// A call with a string literal and no parentheses: `_load "x"`.
    StringShorthand,
    /// A call with a table constructor and no parentheses: `_load {}`.
    TableArgument,
}

/// What the packager complains of in a `_load` call.
pub enum LoadComplaint {
    /// The first argument is a value but not a string.
    NotAString,
    /// The first argument is not a plain value.
    NotAValue,
    /// The arguments are a table constructor.
    InvalidArguments,
}

/// What a `_load` call does about the file it names.
pub enum LoadAction {
    /// Nothing: no file is named.
    Nothing,
    /// Nothing, because the named file is the one that loaded this file.
    Circular,
    /// The named file is loaded.
    Load,
}

/// What to do with a function call.
pub enum LoadPlan {
    /// Leave it as it is: it is not a call of `_load`.
    Keep,
    /// Replace it by an empty function: `_load` is indexed or called as a
    /// method.
    EmptyFunction,
    /// Replace it by a function whose body is the named file's code when the
    /// action is [`LoadAction::Load`], and by an empty function otherwise;
    /// report the complaint, if any, and the file name.
    Called { complaint: Option<LoadComplaint>, file_name: String, action: LoadAction },
}

/// The complaint that a `_load` call with these arguments earns.
pub open spec fn load_complaint(call: LoadCall) -> Option<LoadComplaint> {
    match call {
        LoadCall::Parentheses(Some(LoadArgument::OtherValue)) => Some(LoadComplaint::NotAString),
        LoadCall::Parentheses(Some(LoadArgument::OtherExpression)) => Some(LoadComplaint::NotAValue),
        LoadCall::TableArgument => Some(LoadComplaint::InvalidArguments),
        _ => None,
    }
}

/// The file that a `_load` call with these arguments names: the name of its
/// first argument's token when that is a string value, and nothing (empty)
/// otherwise.
pub open spec fn load_file_name(call: LoadCall) -> Seq<char> {
    match call {
        LoadCall::Parentheses(Some(LoadArgument::StringValue(token))) => token_name_spec(token),
        _ => Seq::empty(),
    }
}

/// What a `_load` call naming `name` does, in a file loaded by `loader`.
pub open spec fn load_action(name: Seq<char>, loader: Seq<char>) -> LoadAction {
    if name.len() == 0 {
        LoadAction::Nothing
    } else if name == loader {
        LoadAction::Circular
    } else {
        LoadAction::Load
    }
}

/// A call whose prefix reads `_load`, white space aside.
pub open spec fn is_load_prefix(prefix: Seq<char>) -> bool {
    trim(prefix) == load_name()
}

/// A call with this prefix and these arguments makes the packager panic:
/// `_load` with no suffix, or called with a string and no parentheses.
pub open spec fn load_panics(prefix: Seq<char>, call: LoadCall) -> bool {
    is_load_prefix(prefix) && (call is NoSuffix || call is StringShorthand)
}

/// The state of the visitor for a file `file_name` in `project_dir` that
/// the visit in state `parent` loads.
pub open spec fn child_state(parent: VisitorState, project_dir: PathBuf, file_name: Seq<char>) -> VisitorState {
    VisitorState {
        project_dir,
        imports: Seq::empty(),
        previous_imports: parent.imports,
        previous_file_name: parent.file_name,
        file_name,
    }
}

/// A file that loads the file that loaded it gets nothing: in the visitor
/// for a loaded file, a `_load` of the loading file's name is circular.
pub proof fn lemma_load_back_is_circular(
    parent: VisitorState,
    project_dir: PathBuf,
    file_name: Seq<char>,
    call: LoadCall,
)
    requires
        load_file_name(call) == parent.file_name,
        parent.file_name.len() > 0,
    ensures
        load_action(load_file_name(call), child_state(parent, project_dir, file_name).previous_file_name)
            is Circular,
{
}

/// What a call with this prefix and these arguments does, in a visitor
/// whose state goes from `before` to `after` and which answers `plan`: a
/// call that is not `_load` is kept; `_load` indexed or called as a method
/// becomes an empty function; `_load` called with arguments gets the
/// complaint, the file name and the action that its arguments and the
/// loading file decide, and a loaded file is recorded among the imports.
pub open spec fn load_step(
    prefix: Seq<char>,
    call: LoadCall,
    before: VisitorState,
    plan: LoadPlan,
    after: VisitorState,
) -> bool {
    &&& !is_load_prefix(prefix) ==> plan is Keep && after == before
    &&& is_load_prefix(prefix) && call is NotCall ==> plan is EmptyFunction && after == before
    &&& is_load_prefix(prefix) && (call is Parentheses || call is TableArgument) ==> {
        &&& plan matches LoadPlan::Called { complaint, file_name, action }
        &&& complaint == load_complaint(call)
        &&& file_name@ == load_file_name(call)
        &&& action == load_action(file_name@, before.previous_file_name)
        &&& after == if action is Load {
            VisitorState { imports: before.imports.push(file_name@), ..before }
        } else {
            before
        }
    }
}

/// A call changes nothing of the visitor but its imports, and those only by
/// recording the file that the call names, at the end.
pub proof fn lemma_load_changes_only_imports(
    prefix: Seq<char>,
    call: LoadCall,
    before: VisitorState,
    plan: LoadPlan,
    after: VisitorState,
)
    requires
        !load_panics(prefix, call),
        load_step(prefix, call, before, plan, after),
    ensures
        after.project_dir == before.project_dir,
        after.file_name == before.file_name,
        after.previous_file_name == before.previous_file_name,
        after.previous_imports == before.previous_imports,
        after.imports == before.imports || after.imports == before.imports.push(load_file_name(call)),
{
}

/// What a `_load("name")` call does: it is replaced by a function loading
/// `name` and records `name` among the imports, unless `name` is the file
/// that loaded this one, when the function is empty and nothing is
/// recorded.  Which files were imported before plays no part: any other
/// name is loaded.  No complaint is made, and nothing else of the visitor
/// changes.
pub proof fn lemma_load_of_named_file(
    prefix: Seq<char>,
    name: String,
    before: VisitorState,
    plan: LoadPlan,
    after: VisitorState,
)
    requires
        trim(prefix) == seq!['_', 'l', 'o', 'a', 'd'],
        name@.len() > 0,
        load_step(
            prefix,
            LoadCall::Parentheses(Some(LoadArgument::StringValue(TokenKind::StringLiteral(name)))),
            before,
            plan,
            after,
        ),
    ensures
        plan is Called,
        plan->complaint is None,
        plan->file_name@ == name@,
        name@ == before.previous_file_name ==> plan->action is Circular && after == before,
        name@ != before.previous_file_name ==> {
            &&& plan->action is Load
            &&& after.imports == before.imports.push(name@)
            &&& after.project_dir == before.project_dir
            &&& after.file_name == before.file_name
            &&& after.previous_file_name == before.previous_file_name
            &&& after.previous_imports == before.previous_imports
        },
{
    assert(load_name() =~= seq!['_', 'l', 'o', 'a', 'd']);
}

/// A call whose prefix is not `_load` (white space aside) is left as it is
/// and changes nothing.
pub proof fn lemma_other_calls_kept(
    prefix: Seq<char>,
    call: LoadCall,
    before: VisitorState,
    plan: LoadPlan,
    after: VisitorState,
)
    requires
        trim(prefix) != seq!['_', 'l', 'o', 'a', 'd'],
        load_step(prefix, call, before, plan, after),
    ensures
        plan is Keep,
        after == before,
{
    assert(load_name() =~= seq!['_', 'l', 'o', 'a', 'd']);
}

/// A `_load` call that names no file (no argument, an argument that is not a
/// string, or a table) loads nothing and changes nothing; it complains of a
/// non-string value, of an argument that is not a plain value, and of table
/// arguments, and of nothing else.
pub proof fn lemma_load_without_file(
    prefix: Seq<char>,
    call: LoadCall,
    before: VisitorState,
    plan: LoadPlan,
    after: VisitorState,
)
    requires
        trim(prefix) == seq!['_', 'l', 'o', 'a', 'd'],
        call == LoadCall::Parentheses(None) || call == LoadCall::Parentheses(
            Some(LoadArgument::OtherValue),
        ) || call == LoadCall::Parentheses(Some(LoadArgument::OtherExpression)) || call
            == LoadCall::TableArgument,
        load_step(prefix, call, before, plan, after),
    ensures
        plan is Called,
        plan->file_name@.len() == 0,
        plan->action is Nothing,
        after == before,
        call == LoadCall::Parentheses(None) ==> plan->complaint is None,
        call == LoadCall::Parentheses(Some(LoadArgument::OtherValue)) ==> plan->complaint == Some(
            LoadComplaint::NotAString,
        ),
        call == LoadCall::Parentheses(Some(LoadArgument::OtherExpression)) ==> plan->complaint
            == Some(LoadComplaint::NotAValue),
        call == LoadCall::TableArgument ==> plan->complaint == Some(LoadComplaint::InvalidArguments),
{
    assert(load_name() =~= seq!['_', 'l', 'o', 'a', 'd']);
}

/// `_load` indexed or called as a method becomes an empty function and
/// changes nothing.
pub proof fn lemma_load_not_called(prefix: Seq<char>, before: VisitorState, plan: LoadPlan, after: VisitorState)
    requires
        trim(prefix) == seq!['_', 'l', 'o', 'a', 'd'],
        load_step(prefix, LoadCall::NotCall, before, plan, after),
    ensures
        plan is EmptyFunction,
        after == before,
{
    assert(load_name() =~= seq!['_', 'l', 'o', 'a', 'd']);
}

/// The visitor for a loaded file starts with no imports, in the directory
/// and under the name it is given, and knows the loading visit's imports
/// and the loading file as the file that loaded it.
pub proof fn lemma_child_state_meaning(parent: VisitorState, project_dir: PathBuf, file_name: Seq<char>)
    ensures
        child_state(parent, project_dir, file_name).project_dir == project_dir,
        child_state(parent, project_dir, file_name).file_name == file_name,
        child_state(parent, project_dir, file_name).imports.len() == 0,
        child_state(parent, project_dir, file_name).previous_imports == parent.imports,
        child_state(parent, project_dir, file_name).previous_file_name == parent.file_name,
{
}

} // verus!
