//! Where the files of a workspace lie.

use vstd::prelude::*;
use crate::text::str_equal;

verus! {

/// The name of the file that holds the current graph.
pub const CURRENT_GRAPH_NAME: &'static str = "current.firm.graph";

/// The name of the file that holds the graph before the current one.
pub const BACKUP_GRAPH_NAME: &'static str = "backup.firm.graph";

/// The directory for generated source files.
pub const GENERATED_DIR_NAME: &'static str = "generated";

/// The extension of source files.
pub const FIRM_EXTENSION: &'static str = "firm";

/// The path that `std::path::Path::join` makes of a path and one to follow
/// it.
pub uninterp spec fn path_join_of(base: Seq<char>, more: Seq<char>) -> Seq<char>;

/// The path that `std::path::Path::with_extension` makes of a path and an
/// extension.
pub uninterp spec fn path_with_extension_of(path: Seq<char>, extension: Seq<char>) -> Seq<char>;

/// The extension that `std::path::Path::extension` finds in a path.
pub uninterp spec fn path_extension_of(path: Seq<char>) -> Option<Seq<char>>;

/// The directory that `std::path::Path::parent` finds above a path.
pub uninterp spec fn path_parent_of(path: Seq<char>) -> Option<Seq<char>>;

/// The path that `pathdiff::diff_paths` finds from a base to a path.
pub uninterp spec fn path_diff_of(path: Seq<char>, base: Seq<char>) -> Option<Seq<char>>;

/// `std::path::Path::parent`: the path without its last component, if it has
/// one to lose.
#[verifier::external_body]
fn path_parent(path: &str) -> (r: Option<String>)
    ensures
        match r {
            Some(parent) => path_parent_of(path@) == Some(parent@),
            None => path_parent_of(path@) is None,
        },
{
    std::path::Path::new(path).parent().map(|p| p.to_string_lossy().into_owned())
}

/// `pathdiff::diff_paths`: the way from `base` to `path` as a relative path,
/// where there is one. Both are taken as written; the file system is not
/// looked at.
#[verifier::external_body]
fn path_diff(path: &str, base: &str) -> (r: Option<String>)
    ensures
        match r {
            Some(way) => path_diff_of(path@, base@) == Some(way@),
            None => path_diff_of(path@, base@) is None,
        },
{
    pathdiff::diff_paths(path, base).map(|p| p.to_string_lossy().into_owned())
}

/// `std::path::Path::join`: the second path below the first, or the second
/// alone where it is absolute.
#[verifier::external_body]
fn path_join(base: &str, more: &str) -> (r: String)
    ensures
        r@ == path_join_of(base@, more@),
{
    std::path::Path::new(base).join(more).to_string_lossy().into_owned()
}

/// Whether a text holds no separator of path components, `/` or `\`.
pub open spec fn has_no_separator(text: Seq<char>) -> bool {
    forall|i: int| 0 <= i < text.len() ==> #[trigger] text[i] != '/' && text[i] != '\\'
}

/// `std::path::Path::with_extension`: the path with the extension of its
/// file name replaced or added. An extension that holds a separator of path
/// components makes the call panic, so none is admitted.
#[verifier::external_body]
fn path_with_extension(path: &str, extension: &str) -> (r: String)
    requires
        has_no_separator(extension@),
    ensures
        r@ == path_with_extension_of(path@, extension@),
{
    std::path::Path::new(path).with_extension(extension).to_string_lossy().into_owned()
}

/// `std::path::Path::extension`: what follows the last dot of the file name,
/// if the name has one that is not its first character.
#[verifier::external_body]
fn path_extension(path: &str) -> (r: Option<String>)
    ensures
        match r {
            Some(extension) => path_extension_of(path@) == Some(extension@),
            None => path_extension_of(path@) is None,
        },
{
    std::path::Path::new(path).extension().map(|e| e.to_string_lossy().into_owned())
}

/// The path of the file that generated source for an entity type goes to.
pub open spec fn dsl_path_of(
    workspace_path: Seq<char>,
    to_file: Option<Seq<char>>,
    entity_type: Seq<char>,
) -> Seq<char> {
    match to_file {
        Some(file_path) => path_with_extension_of(
            path_join_of(workspace_path, file_path),
            FIRM_EXTENSION@,
        ),
        None => path_with_extension_of(
            path_join_of(path_join_of(workspace_path, GENERATED_DIR_NAME@), entity_type),
            FIRM_EXTENSION@,
        ),
    }
}

/// The path to write generated source to: the file that was asked for, or
/// the file of the entity type in the directory for generated files, in
/// either case below the workspace and with the extension of source files.
pub fn compute_dsl_path(workspace_path: &str, to_file: Option<String>, chosen_type_str: String) -> (r:
    String)
    ensures
        r@ == dsl_path_of(
            workspace_path@,
            match to_file {
                Some(file_path) => Some(file_path@),
                None => None,
            },
            chosen_type_str@,
        ),
{
    proof {
        reveal_strlit("firm");
        assert(FIRM_EXTENSION@ == "firm"@);
        assert(FIRM_EXTENSION@.len() == 4);
        assert(FIRM_EXTENSION@[0] == 'f' && FIRM_EXTENSION@[1] == 'i' && FIRM_EXTENSION@[2] == 'r'
            && FIRM_EXTENSION@[3] == 'm');
    }
    match to_file {
        Some(file_path) => path_with_extension(
            path_join(workspace_path, file_path.as_str()).as_str(),
            FIRM_EXTENSION,
        ),
        None => path_with_extension(
            path_join(
                path_join(workspace_path, GENERATED_DIR_NAME).as_str(),
                chosen_type_str.as_str(),
            ).as_str(),
            FIRM_EXTENSION,
        ),
    }
}

/// Whether a path has the extension of source files.
pub fn is_firm_file(path: &str) -> (r: bool)
    ensures
        r == (path_extension_of(path@) == Some(FIRM_EXTENSION@)),
{
    match path_extension(path) {
        Some(extension) => str_equal(extension.as_str(), FIRM_EXTENSION),
        None => false,
    }
}

/// The path to write into a source file for a path that was chosen relative
/// to the workspace: the way to it from the directory of the source file,
/// or the path as chosen where there is no such way.
pub open spec fn relative_path_of(
    workspace_dir: Seq<char>,
    source_path: Seq<char>,
    chosen: Seq<char>,
) -> Seq<char> {
    let source_dir = match path_parent_of(source_path) {
        Some(parent) => parent,
        None => Seq::empty(),
    };
    match path_diff_of(path_join_of(workspace_dir, chosen), source_dir) {
        Some(way) => way,
        None => chosen,
    }
}

/// Turns a path relative to the workspace into one relative to the source
/// file that will hold it.
pub fn relative_path_for(workspace_dir: &str, source_path: &str, chosen: &str) -> (r: String)
    ensures
        r@ == relative_path_of(workspace_dir@, source_path@, chosen@),
{
    let full_path = path_join(workspace_dir, chosen);
    let source_dir = match path_parent(source_path) {
        Some(parent) => parent,
        None => String::new(),
    };
    match path_diff(full_path.as_str(), source_dir.as_str()) {
        Some(way) => way,
        None => chosen.to_owned(),
    }
}

/// The directory whose entries are suggested for a path that is being
/// typed: what was typed where it names a directory, else the directory
/// above it; in either case below the workspace.
pub open spec fn search_directory_of(input: Seq<char>, workspace_dir: Seq<char>) -> Seq<char> {
    if input.len() == 0 || input.last() == '/' {
        path_join_of(workspace_dir, input)
    } else {
        match path_parent_of(path_join_of(workspace_dir, input)) {
            Some(parent) => parent,
            None => workspace_dir,
        }
    }
}

/// Finds the directory whose entries are suggested for a path that is being
/// typed.
pub fn search_directory(input: &str, workspace_dir: &str) -> (r: String)
    ensures
        r@ == search_directory_of(input@, workspace_dir@),
{
    let chars = crate::text::to_chars(input);
    if chars.len() == 0 || chars[chars.len() - 1] == '/' {
        path_join(workspace_dir, input)
    } else {
        match path_parent(path_join(workspace_dir, input).as_str()) {
            Some(parent) => parent,
            None => workspace_dir.to_owned(),
        }
    }
}

/// An entry of a directory: its path and whether it is a directory itself.
#[derive(Debug, Clone, PartialEq, Eq)]
pub struct DirectoryEntry {
    pub path: String,
    pub is_dir: bool,
}

/// What is suggested for an entry: its way from the workspace, with a slash
/// after a directory; nothing for an entry without such a way.
pub open spec fn suggestion_of(entry: DirectoryEntry, workspace_dir: Seq<char>) -> Option<Seq<char>> {
    match path_diff_of(entry.path@, workspace_dir) {
        Some(way) => Some(
            if entry.is_dir {
                way + seq!['/']
            } else {
                way
            },
        ),
        None => None,
    }
}

/// The suggestions for the first `upto` entries that start with what was
/// typed.
pub open spec fn path_suggestions_of(
    input: Seq<char>,
    workspace_dir: Seq<char>,
    entries: Seq<DirectoryEntry>,
    upto: nat,
) -> Seq<Seq<char>>
    decreases upto,
{
    if 0 < upto <= entries.len() {
        let before = path_suggestions_of(input, workspace_dir, entries, (upto - 1) as nat);
        match suggestion_of(entries[upto - 1], workspace_dir) {
            Some(suggestion) => if crate::scan::occurs_at(suggestion, input, 0) {
                before.push(suggestion)
            } else {
                before
            },
            None => before,
        }
    } else {
        Seq::empty()
    }
}

/// Gets the suggestions for a path that is being typed from the entries of
/// the directory that is searched.
pub fn get_path_suggestions(input: &str, workspace_dir: &str, entries: &Vec<DirectoryEntry>) -> (r:
    Vec<String>)
    ensures
        crate::prompt::texts_of(r@) == path_suggestions_of(
            input@,
            workspace_dir@,
            entries@,
            entries@.len(),
        ),
{
    let typed = crate::text::to_chars(input);
    let mut suggestions: Vec<String> = Vec::new();
    let mut i: usize = 0;
    proof {
        assert(crate::prompt::texts_of(suggestions@) =~= Seq::<Seq<char>>::empty());
    }
    while i < entries.len()
        invariant
            i <= entries.len(),
            typed@ == input@,
            crate::prompt::texts_of(suggestions@) == path_suggestions_of(
                input@,
                workspace_dir@,
                entries@,
                i as nat,
            ),
        decreases entries.len() - i,
    {
        let ghost before = crate::prompt::texts_of(suggestions@);
        match path_diff(entries[i].path.as_str(), workspace_dir) {
            Some(way) => {
                let mut suggestion = way;
                if entries[i].is_dir {
                    proof {
                        reveal_strlit("/");
                        assert("/"@ =~= seq!['/']);
                    }
                    vstd::string::StringExecFns::append(&mut suggestion, "/");
                }
                let shown = crate::text::to_chars(suggestion.as_str());
                if crate::scan::matches_at(&shown, &typed, 0) {
                    suggestions.push(suggestion);
                    assert(crate::prompt::texts_of(suggestions@) =~= before.push(suggestion@));
                }
            },
            None => {},
        }
        i += 1;
    }
    suggestions
}

/// The path of the file that holds the current graph of a workspace.
pub fn current_graph_path(workspace_path: &str) -> (r: String)
    ensures
        r@ == path_join_of(workspace_path@, CURRENT_GRAPH_NAME@),
{
    path_join(workspace_path, CURRENT_GRAPH_NAME)
}

/// The path of the file that holds the graph before the current one.
pub fn backup_graph_path(workspace_path: &str) -> (r: String)
    ensures
        r@ == path_join_of(workspace_path@, BACKUP_GRAPH_NAME@),
{
    path_join(workspace_path, BACKUP_GRAPH_NAME)
}

} // verus!
