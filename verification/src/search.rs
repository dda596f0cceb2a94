use vstd::prelude::*;
use vstd::string::StringExecFns;

use crate::error::ErrorKind;
use crate::manager::{PackageManager, SolvInput};
use crate::text::contains_char;

verus! {

/// A package that provides the command searched for.
#[derive(Debug, Clone)]
pub struct SearchResult {
    /// The repository that holds the package.
    pub repo: String,
    /// The package's name.
    pub package: String,
    /// The directory in which the package installs the command.
    pub path: String,
}

impl View for SearchResult {
    type V = (Seq<char>, Seq<char>, Seq<char>);

    open spec fn view(&self) -> (Seq<char>, Seq<char>, Seq<char>) {
        (self.repo@, self.package@, self.path@)
    }
}

/// The directories whose commands are suggested.
pub open spec fn is_command_dir(path: Seq<char>) -> bool {
    path == "/usr/bin"@ || path == "/usr/sbin"@
}

/// Whether `path` is "/usr/bin" or "/usr/sbin".
pub fn in_command_dir(path: &str) -> (b: bool)
    ensures
        b == is_command_dir(path@),
{
    let p = path.to_owned();
    p == "/usr/bin".to_owned() || p == "/usr/sbin".to_owned()
}

/// The results after a match of the search: it is kept where its package
/// is installable and it installs into a command directory.
pub open spec fn after_hit(
    results: Seq<SearchResult>,
    hit: SearchResult,
    installable: bool,
) -> Seq<SearchResult> {
    if installable && is_command_dir(hit.path@) {
        results.push(hit)
    } else {
        results
    }
}

/// Records one match of the file search: the match is kept where its
/// package is installable and it installs into /usr/bin or /usr/sbin.
pub fn record_hit(results: &mut Vec<SearchResult>, hit: SearchResult, installable: bool)
    ensures
        final(results)@ == after_hit(old(results)@, hit, installable),
{
    if installable && in_command_dir(hit.path.as_str()) {
        results.push(hit);
    }
}

/// Recording matches keeps only results in command directories.
pub proof fn law_recorded_results_in_command_dirs(
    results: Seq<SearchResult>,
    hit: SearchResult,
    installable: bool,
)
    requires
        forall|i: int| 0 <= i < results.len() ==> is_command_dir(#[trigger] results[i].path@),
    ensures
        forall|i: int|
            0 <= i < after_hit(results, hit, installable).len() ==> is_command_dir(
                #[trigger] after_hit(results, hit, installable)[i].path@,
            ),
{
}

/// Every installable match in /usr/bin or /usr/sbin is appended to the
/// results, whatever they already hold; a match that is not installable,
/// or lies elsewhere, leaves them as they were.
pub proof fn law_kept_hits_are_appended(
    results: Seq<SearchResult>,
    hit: SearchResult,
    installable: bool,
)
    ensures
        installable && (hit.path@ == "/usr/bin"@ || hit.path@ == "/usr/sbin"@) ==> after_hit(
            results,
            hit,
            installable,
        ) == results.push(hit),
        !installable ==> after_hit(results, hit, installable) == results,
        hit.path@ != "/usr/bin"@ && hit.path@ != "/usr/sbin"@ ==> after_hit(
            results,
            hit,
            installable,
        ) == results,
{
}

/// Whether a string can be handed on as a C string: it holds no NUL.
pub open spec fn is_c_string(s: Seq<char>) -> bool {
    !s.contains('\0')
}

/// Checks that the search term can be handed to the solver.
pub fn check_search_term(term: &str) -> (r: Result<(), ErrorKind>)
    ensures
        r is Ok <==> is_c_string(term@),
        r matches Err(e) ==> e matches ErrorKind::IsNULL(label) && label@
            == "Ctring::New(term)"@,
{
    if contains_char(term, '\0') {
        Err(ErrorKind::IsNULL("Ctring::New(term)".to_owned()))
    } else {
        Ok(())
    }
}

/// Checks that a solv input can be handed to the solver: its name first,
/// then its path.
pub fn check_solv_input(input: &SolvInput) -> (r: Result<(), ErrorKind>)
    ensures
        r is Ok <==> is_c_string(input.name@) && is_c_string(input.path@),
        !is_c_string(input.name@) ==> (r matches Err(ErrorKind::IsNULL(label)) && label@
            == "input.name"@),
        is_c_string(input.name@) && !is_c_string(input.path@) ==> (r matches Err(
            ErrorKind::IsNULL(label),
        ) && label@ == "input.path"@),
{
    if contains_char(input.name.as_str(), '\0') {
        return Err(ErrorKind::IsNULL("input.name".to_owned()));
    }
    if contains_char(input.path.as_str(), '\0') {
        return Err(ErrorKind::IsNULL("input.path".to_owned()));
    }
    Ok(())
}

/// A search without results is the error "command not found".
pub fn check_found(term: &str, results: &Vec<SearchResult>) -> (r: Result<(), ErrorKind>)
    ensures
        r is Ok <==> results@.len() > 0,
        r matches Err(e) ==> e matches ErrorKind::CommandNotFound(t) && t@ == term@,
{
    if results.len() == 0 {
        Err(ErrorKind::CommandNotFound(term.to_owned()))
    } else {
        Ok(())
    }
}

/// The command of a package manager.
pub open spec fn manager_command(pm: PackageManager) -> Seq<char> {
    match pm {
        PackageManager::Zypper => "zypper"@,
        PackageManager::Dnf => "dnf"@,
        PackageManager::Dnf5 => "dnf5"@,
    }
}

/// The package to suggest: the only result's package, or `placeholder`
/// where there are several (or none).
pub open spec fn suggested_package(results: Seq<SearchResult>, placeholder: Seq<char>) -> Seq<
    char,
> {
    if results.len() == 1 {
        results[0].package@
    } else {
        placeholder
    }
}

/// The install advice that ends the report.
pub open spec fn spec_install_hint(
    pm: PackageManager,
    results: Seq<SearchResult>,
    placeholder: Seq<char>,
) -> Seq<char> {
    " sudo "@ + manager_command(pm) + " install "@ + suggested_package(results, placeholder)
        + "\n"@
}

/// The install advice names the package only where there is exactly one
/// result; with none, two or more it names the placeholder.
pub proof fn law_install_hint_names_single_package(
    pm: PackageManager,
    results: Seq<SearchResult>,
    placeholder: Seq<char>,
)
    ensures
        ({
            let command = match pm {
                PackageManager::Zypper => "zypper"@,
                PackageManager::Dnf => "dnf"@,
                PackageManager::Dnf5 => "dnf5"@,
            };
            &&& results.len() == 1 ==> spec_install_hint(pm, results, placeholder) == " sudo "@
                + command + " install "@ + results[0].package@ + "\n"@
            &&& results.len() != 1 ==> spec_install_hint(pm, results, placeholder) == " sudo "@
                + command + " install "@ + placeholder + "\n"@
        }),
{
}

/// The install advice: " sudo <manager> install <package>" and a new line,
/// where the package is the only result's, or `placeholder` (the
/// translated "<selected_package>") where there are several.
pub fn install_hint(pm: PackageManager, results: &Vec<SearchResult>, placeholder: &str) -> (hint:
    String)
    ensures
        hint@ == spec_install_hint(pm, results@, placeholder@),
{
    let mut hint = " sudo ".to_owned();
    match pm {
        PackageManager::Zypper => hint.append("zypper"),
        PackageManager::Dnf => hint.append("dnf"),
        PackageManager::Dnf5 => hint.append("dnf5"),
    }
    hint.append(" install ");
    if results.len() == 1 {
        hint.append(results[0].package.as_str());
    } else {
        hint.append(placeholder);
    }
    hint.append("\n");
    hint
}

} // verus!
