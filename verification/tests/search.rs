use cnf::error::ErrorKind;
use cnf::manager::{PackageManager, SolvInput};
use cnf::search::{
    check_found, check_search_term, check_solv_input, in_command_dir, install_hint, record_hit,
    SearchResult,
};

fn hit(package: &str, path: &str) -> SearchResult {
    SearchResult {
        repo: "repo-oss".to_string(),
        package: package.to_string(),
        path: path.to_string(),
    }
}

#[test]
fn command_dirs() {
    assert!(in_command_dir("/usr/bin"));
    assert!(in_command_dir("/usr/sbin"));
    assert!(!in_command_dir("/usr/bin/"));
    assert!(!in_command_dir("/bin"));
    assert!(!in_command_dir("/usr/lib/cmake"));
    assert!(!in_command_dir(""));
}

#[test]
fn only_installable_command_hits_are_kept() {
    let mut results = Vec::new();
    record_hit(&mut results, hit("cmake-full", "/usr/bin"), true);
    record_hit(&mut results, hit("cmake-doc", "/usr/share/doc"), true);
    record_hit(&mut results, hit("cmake-installed", "/usr/bin"), false);
    record_hit(&mut results, hit("util-linux", "/usr/sbin"), true);
    assert_eq!(results.len(), 2);
    assert_eq!(results[0].package, "cmake-full");
    assert_eq!(results[1].package, "util-linux");
    for r in results.iter() {
        assert!(r.path == "/usr/bin" || r.path == "/usr/sbin");
    }
}

#[test]
fn search_term_with_nul_is_refused() {
    assert_eq!(check_search_term("cmake"), Ok(()));
    assert_eq!(
        check_search_term("cm\0ake"),
        Err(ErrorKind::IsNULL("Ctring::New(term)".to_string()))
    );
}

#[test]
fn solv_inputs_with_nul_are_refused() {
    let good = SolvInput::new("oss".to_string(), "/var/cache/x/solv".to_string());
    assert_eq!(check_solv_input(&good), Ok(()));
    let bad_name = SolvInput::new("o\0ss".to_string(), "/p\0".to_string());
    assert_eq!(check_solv_input(&bad_name), Err(ErrorKind::IsNULL("input.name".to_string())));
    let bad_path = SolvInput::new("oss".to_string(), "/p\0".to_string());
    assert_eq!(check_solv_input(&bad_path), Err(ErrorKind::IsNULL("input.path".to_string())));
}

#[test]
fn no_results_is_command_not_found() {
    assert_eq!(
        check_found("cmake", &Vec::new()),
        Err(ErrorKind::CommandNotFound("cmake".to_string()))
    );
    assert_eq!(check_found("cmake", &vec![hit("cmake", "/usr/bin")]), Ok(()));
}

#[test]
fn install_hint_for_several_packages() {
    let results = vec![hit("cmake-full", "/usr/bin"), hit("cmake-mini", "/usr/bin")];
    assert_eq!(
        install_hint(PackageManager::Zypper, &results, "<selected_package>"),
        " sudo zypper install <selected_package>\n"
    );
}

#[test]
fn install_hint_for_one_package() {
    let results = vec![hit("cmake-full", "/usr/bin")];
    assert_eq!(install_hint(PackageManager::Dnf, &results, "<p>"), " sudo dnf install cmake-full\n");
    assert_eq!(
        install_hint(PackageManager::Dnf5, &results, "<p>"),
        " sudo dnf5 install cmake-full\n"
    );
}

#[test]
fn error_messages() {
    let nf = "command not found";
    assert_eq!(ErrorKind::CommandNotFound("foo".to_string()).message(nf), " foo: command not found");
    assert_eq!(ErrorKind::PatternError("bad pattern".to_string()).message(nf), "bad pattern");
    assert_eq!(ErrorKind::GlobError("glob".to_string()).message(nf), "glob");
    assert_eq!(ErrorKind::IOError("io".to_string()).message(nf), "io");
    assert_eq!(ErrorKind::IsNULL("pool_create".to_string()).message(nf), "pool_create is NULL");
    assert_eq!(
        ErrorKind::IsNULLNamed("pool_create".to_string(), "oss".to_string()).message(nf),
        "pool_create oss is NULL"
    );
    assert_eq!(
        ErrorKind::RepoAddSolv("/var/cache/x/solv".to_string()).message(nf),
        "repo_add_solv failed on /var/cache/x/solv"
    );
    assert_eq!(ErrorKind::String("other".to_string()).message(nf), "other");
}
