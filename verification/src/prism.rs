use vstd::prelude::*;

verus! {

/// The directory, among the application's files, that holds the language
/// definitions of the syntax highlighter.
pub const PRISM_LANGS_DIR: &'static str = "prism_langs";

/// The start of the script that tells the highlighter where its languages are.
pub const PRISM_PATH_SCRIPT_START: &'static str = "Prism.plugins.autoloader.languages_path = '";

/// The end of that script.
pub const PRISM_PATH_SCRIPT_END: &'static str = "';";

fn owned_components(path: &Vec<String>) -> (r: Vec<String>)
    ensures
        r@ == path@,
{
    path.clone()
}

/// Where the highlighter's languages are, as path components. In production
/// they lie in the `.uplink` directory on Windows and in the directory of
/// extra files elsewhere (an empty path when there is none); in development
/// they lie in `ui/extra/prism_langs`.
pub fn get_prism_path(
    production_mode: bool,
    is_windows: bool,
    dot_uplink: &Vec<String>,
    extras_dir: Option<Vec<String>>,
) -> (r: Vec<String>)
    ensures
        r@.len() >= 1,
        r@.last()@ == PRISM_LANGS_DIR@,
        production_mode && is_windows ==> r@.drop_last() == dot_uplink@,
        production_mode && !is_windows ==> match extras_dir {
            Some(d) => r@.drop_last() == d@,
            None => r@.drop_last().len() == 0,
        },
        !production_mode ==> r@.len() == 3 && r@[0]@ == "ui"@ && r@[1]@ == "extra"@,
{
    if production_mode {
        let mut base = if is_windows {
            owned_components(dot_uplink)
        } else {
            match extras_dir {
                Some(d) => d,
                None => Vec::new(),
            }
        };
        let ghost before = base@;
        base.push(String::from_str(PRISM_LANGS_DIR));
        assert(base@.drop_last() =~= before);
        base
    } else {
        let mut r: Vec<String> = Vec::new();
        r.push(String::from_str("ui"));
        r.push(String::from_str("extra"));
        r.push(String::from_str(PRISM_LANGS_DIR));
        r
    }
}

/// The script that points the highlighter's autoloader to `prism_path` (the
/// path of the languages, as text).
pub fn use_prism_path(prism_path: &str) -> (r: String)
    ensures
        r@ == PRISM_PATH_SCRIPT_START@ + prism_path@ + PRISM_PATH_SCRIPT_END@,
{
    let mut r = String::from_str(PRISM_PATH_SCRIPT_START);
    r.append(prism_path);
    r.append(PRISM_PATH_SCRIPT_END);
    r
}

/// The scripts that the highlighter needs, in the order in which they are
/// loaded: the highlighter itself, the script that locates its languages,
/// and the markdown editor.
#[allow(non_snake_case)]
pub fn PrismScripts(prism_script: &str, prism_path: &str, markdown_editor: &str) -> (r: Vec<String>)
    ensures
        r@.len() == 3,
        r@[0]@ == prism_script@,
        r@[1]@ == PRISM_PATH_SCRIPT_START@ + prism_path@ + PRISM_PATH_SCRIPT_END@,
        r@[2]@ == markdown_editor@,
{
    let mut r: Vec<String> = Vec::new();
    r.push(String::from_str(prism_script));
    r.push(use_prism_path(prism_path));
    r.push(String::from_str(markdown_editor));
    r
}

} // verus!
