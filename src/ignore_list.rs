//! The directory names whose files are ignored, and what makes a valid one.
use vstd::prelude::*;
use crate::folder_info::names_of;

verus! {

/// The directory names ignored unless configured otherwise: caches, version
/// control, editor settings, virtual environments and build outputs.
pub open spec fn default_ignored() -> Seq<&'static str> {
    seq![
        ".cache", ".cargo", ".git", ".gradle", ".idea", ".mvn", ".npm", ".pytest_cache",
        ".rustup", ".svn", ".venv", ".vs", ".vscode", "bin", "build", "dist", "node_modules",
        "obj", "target", "tmp", "venv", "__pycache__",
    ]
}

/// The default ignored directory names, as owned strings.
pub fn default_ignored_subfolders() -> (r: Vec<String>)
    ensures
        names_of(r@) == default_ignored().map_values(|s: &str| s@),
{
    let table = vec![
        ".cache", ".cargo", ".git", ".gradle", ".idea", ".mvn", ".npm", ".pytest_cache",
        ".rustup", ".svn", ".venv", ".vs", ".vscode", "bin", "build", "dist", "node_modules",
        "obj", "target", "tmp", "venv", "__pycache__",
    ];
    assert(table@ =~= default_ignored());
    let mut r: Vec<String> = Vec::new();
    let mut i: usize = 0;
    while i < table.len()
        invariant
            table@ == default_ignored(),
            i <= table@.len(),
            names_of(r@) =~= default_ignored().map_values(|s: &str| s@).subrange(0, i as int),
        decreases table@.len() - i,
    {
        let ghost before = names_of(r@);
        let name = String::from_str(table[i]);
        r.push(name);
        assert(names_of(r@) =~= before.push(table@[i as int]@));
        i += 1;
    }
    assert(default_ignored().map_values(|s: &str| s@).subrange(0, i as int)
        =~= default_ignored().map_values(|s: &str| s@));
    r
}

/// Characters that a folder name cannot hold.
pub open spec fn forbidden_char(c: char) -> bool {
    c == '<' || c == '>' || c == ':' || c == '"' || c == '/' || c == '\\' || c == '|' || c == '?'
        || c == '*'
}

/// A valid folder name: not empty, without forbidden characters, and not
/// ending in a space or a dot.
pub open spec fn valid_folder_name(name: Seq<char>) -> bool {
    &&& name.len() > 0
    &&& forall|i: int| 0 <= i < name.len() ==> !forbidden_char(#[trigger] name[i])
    &&& name.last() != ' '
    &&& name.last() != '.'
}

/// Whether `name` can be added to the ignored directory names.
pub fn is_valid_folder_name(name: &str) -> (r: bool)
    ensures
        r == valid_folder_name(name@),
{
    let n = name.unicode_len();
    if n == 0 {
        return false;
    }
    let mut i: usize = 0;
    while i < n
        invariant
            n == name@.len(),
            i <= n,
            forall|j: int| 0 <= j < i ==> !forbidden_char(#[trigger] name@[j]),
        decreases n - i,
    {
        let c = name.get_char(i);
        if c == '<' || c == '>' || c == ':' || c == '"' || c == '/' || c == '\\' || c == '|'
            || c == '?' || c == '*' {
            return false;
        }
        i += 1;
    }
    let last = name.get_char(n - 1);
    last != ' ' && last != '.'
}

} // verus!
