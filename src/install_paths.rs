//! Where an installation lives below a user profile, and the shell
//! registry entries that point at it. Reading the profile location and
//! touching the file system or the registry is left to the caller.
use vstd::prelude::*;

verus! {

/// `base` followed by `suffix`, or nothing when `base` is empty.
pub open spec fn below(base: Seq<char>, suffix: Seq<char>) -> Seq<char> {
    if base.len() == 0 {
        Seq::empty()
    } else {
        base + suffix
    }
}

/// The installation directory for the profile directory `profile`.
pub open spec fn setup_dir(profile: Seq<char>) -> Seq<char> {
    below(profile, "\\FolderToAI"@)
}

fn join_below(base: &str, suffix: &str) -> (r: String)
    ensures
        r@ == below(base@, suffix@),
{
    if base.is_empty() {
        return String::new();
    }
    let mut s = String::from_str(base);
    s.append(suffix);
    s
}

/// The installation directory below the user profile directory
/// `user_profile` (empty when the profile is unknown, that is empty).
pub fn setup_path(user_profile: &str) -> (r: String)
    ensures
        r@ == setup_dir(user_profile@),
{
    join_below(user_profile, "\\FolderToAI")
}

/// The installed executable below the user profile directory.
pub fn setup_executable_path(user_profile: &str) -> (r: String)
    ensures
        r@ == below(setup_dir(user_profile@), "\\FolderToAI.exe"@),
{
    let dir = setup_path(user_profile);
    join_below(dir.as_str(), "\\FolderToAI.exe")
}

/// The installed icon below the user profile directory.
pub fn setup_icon_path(user_profile: &str) -> (r: String)
    ensures
        r@ == below(setup_dir(user_profile@), "\\FolderToAI.ico"@),
{
    let dir = setup_path(user_profile);
    join_below(dir.as_str(), "\\FolderToAI.ico")
}

/// The settings file below the user profile directory.
pub fn settings_file_path(user_profile: &str) -> (r: String)
    ensures
        r@ == below(setup_dir(user_profile@), "\\settings.json"@),
{
    let dir = setup_path(user_profile);
    join_below(dir.as_str(), "\\settings.json")
}

/// The registry key, below the current user's hive, of the folder
/// background's context menu entry.
pub fn context_menu_key() -> (r: String)
    ensures
        r@ == "Software\\Classes\\Directory\\Background\\shell\\FolderToAI"@,
{
    String::from_str("Software\\Classes\\Directory\\Background\\shell\\FolderToAI")
}

/// The registry key that holds the entry's command.
pub fn context_menu_command_key() -> (r: String)
    ensures
        r@ == "Software\\Classes\\Directory\\Background\\shell\\FolderToAI\\command"@,
{
    String::from_str("Software\\Classes\\Directory\\Background\\shell\\FolderToAI\\command")
}

/// The entry's icon value: the executable's path in quotes.
pub fn context_menu_icon_value(executable: &str) -> (r: String)
    ensures
        r@ == "\""@ + executable@ + "\""@,
{
    let mut s = String::from_str("\"");
    s.append(executable);
    s.append("\"");
    s
}

/// The entry's command: the executable, then the folder the menu was opened
/// in, each in quotes.
pub fn context_menu_command_value(executable: &str) -> (r: String)
    ensures
        r@ == "\""@ + executable@ + "\" \"%V\""@,
{
    let mut s = String::from_str("\"");
    s.append(executable);
    s.append("\" \"%V\"");
    s
}

/// A character that separates path components.
pub open spec fn is_separator(c: char) -> bool {
    c == '\\' || c == '/'
}

/// The components of a path: the runs of characters between separators,
/// empty runs left out.
pub open spec fn components(p: Seq<char>) -> Seq<Seq<char>> {
    components_from(p, p.len() as int)
}

/// The components of the first `n` characters of `p`, the last of them
/// possibly still growing.
pub open spec fn components_from(p: Seq<char>, n: int) -> Seq<Seq<char>>
    decreases n,
{
    if n <= 0 {
        Seq::empty()
    } else if is_separator(p[n - 1]) {
        components_from(p, n - 1)
    } else {
        let prev = components_from(p, n - 1);
        if n >= 2 && !is_separator(p[n - 2]) {
            prev.drop_last().push(prev.last().push(p[n - 1]))
        } else {
            prev.push(seq![p[n - 1]])
        }
    }
}

proof fn lemma_components_nonempty(p: Seq<char>, n: int)
    requires
        1 <= n <= p.len(),
        !is_separator(p[n - 1]),
    ensures
        components_from(p, n).len() > 0,
    decreases n,
{
}

fn components_of(p: &str) -> (r: Vec<Vec<char>>)
    ensures
        r@.map_values(|c: Vec<char>| c@) == components(p@),
{
    let n = p.unicode_len();
    let mut r: Vec<Vec<char>> = Vec::new();
    let mut i: usize = 0;
    while i < n
        invariant
            n == p@.len(),
            i <= n,
            r@.map_values(|c: Vec<char>| c@) == components_from(p@, i as int),
        decreases n - i,
    {
        let c = p.get_char(i);
        if c == '\\' || c == '/' {
        } else if i >= 1 && !(p.get_char(i - 1) == '\\' || p.get_char(i - 1) == '/') {
            proof {
                lemma_components_nonempty(p@, i as int);
            }
            let ghost before = r@.map_values(|c: Vec<char>| c@);
            let mut last = r.pop().unwrap();
            last.push(c);
            r.push(last);
            assert(r@.map_values(|c: Vec<char>| c@) =~= before.drop_last().push(
                before.last().push(c),
            ));
        } else {
            let ghost before = r@.map_values(|c: Vec<char>| c@);
            let one = vec![c];
            assert(one@ =~= seq![c]);
            r.push(one);
            assert(r@.map_values(|c: Vec<char>| c@) =~= before.push(seq![c]));
        }
        i += 1;
    }
    r
}

/// Whether the components of `base` begin the components of `path`.
pub open spec fn starts_with_components(path: Seq<char>, base: Seq<char>) -> bool {
    let a = components(path);
    let b = components(base);
    b.len() <= a.len() && a.subrange(0, b.len() as int) == b
}

/// Whether the executable at `executable_path` lies in the installation
/// directory of the user profile `user_profile`, comparing whole path
/// components.
pub fn is_being_executed_from_installation_location(executable_path: &str, user_profile: &str) -> (r:
    bool)
    ensures
        r == starts_with_components(executable_path@, setup_dir(user_profile@)),
{
    let dir = setup_path(user_profile);
    let a = components_of(executable_path);
    let b = components_of(dir.as_str());
    let ghost av = a@.map_values(|c: Vec<char>| c@);
    let ghost bv = b@.map_values(|c: Vec<char>| c@);
    assert(av.len() == a@.len() && bv.len() == b@.len());
    assert(components(executable_path@) == av);
    assert(components(setup_dir(user_profile@)) == bv);
    if b.len() > a.len() {
        return false;
    }
    let mut i: usize = 0;
    while i < b.len()
        invariant
            av == a@.map_values(|c: Vec<char>| c@),
            bv == b@.map_values(|c: Vec<char>| c@),
            components(executable_path@) == av,
            components(setup_dir(user_profile@)) == bv,
            b@.len() <= a@.len(),
            i <= b@.len(),
            forall|j: int| 0 <= j < i ==> av[j] == bv[j],
        decreases b@.len() - i,
    {
        if !same_chars(&a[i], &b[i]) {
            assert(av.subrange(0, bv.len() as int)[i as int] != bv[i as int]);
            return false;
        }
        i += 1;
    }
    assert(av.subrange(0, bv.len() as int) =~= bv);
    true
}

fn same_chars(x: &Vec<char>, y: &Vec<char>) -> (r: bool)
    ensures
        r == (x@ == y@),
{
    if x.len() != y.len() {
        return false;
    }
    let mut i: usize = 0;
    while i < x.len()
        invariant
            x@.len() == y@.len(),
            i <= x@.len(),
            forall|j: int| 0 <= j < i ==> x@[j] == y@[j],
        decreases x@.len() - i,
    {
        if x[i] != y[i] {
            return false;
        }
        i += 1;
    }
    assert(x@ =~= y@);
    true
}

} // verus!
