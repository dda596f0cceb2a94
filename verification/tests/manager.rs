use cnf::ini::repo_enabled;
use cnf::manager::{
    detect_manager, repo_globs, replace_slashes, solv_glob, solv_glob_for, solv_inputs,
    PackageManager, SolvInput,
};

#[test]
fn globs_of_each_manager() {
    assert_eq!(repo_globs(PackageManager::Zypper), vec!["/etc/zypp/repos.d/*.repo"]);
    assert_eq!(
        repo_globs(PackageManager::Dnf),
        vec!["/etc/dnf/repos.d/*.repo", "/etc/yum.repos.d/*.repo", "/etc/distro.repos.d/*.repo"]
    );
    assert_eq!(
        repo_globs(PackageManager::Dnf5),
        vec![
            "/etc/dnf/repos.d/*.repo",
            "/etc/yum.repos.d/*.repo",
            "/etc/distro.repos.d/*.repo",
            "/usr/share/dnf5/repos.d/*.repo"
        ]
    );
}

#[test]
fn slashes_become_underscores() {
    assert_eq!(replace_slashes("a/b//c"), "a_b__c");
    assert_eq!(replace_slashes("plain"), "plain");
    assert_eq!(replace_slashes(""), "");
    assert_eq!(replace_slashes("/"), "_");
    assert_eq!(replace_slashes("ü/ß"), "ü_ß");
    assert!(!replace_slashes("x/y/z").contains('/'));
}

#[test]
fn solv_patterns() {
    assert_eq!(solv_glob(PackageManager::Zypper, "repo-oss"), "/var/cache/zypp/solv/repo-oss/solv");
    assert_eq!(solv_glob(PackageManager::Dnf, "fedora/x"), "/var/cache/dnf/fedora_x.solv");
    assert_eq!(
        solv_glob(PackageManager::Dnf5, "fedora"),
        "/var/cache/libdnf5/fedora-*/solv/*.solv"
    );
}

#[test]
fn only_enabled_repos_have_a_pattern() {
    let on = repo_enabled("[repo/a]\nenabled=1\n");
    assert_eq!(
        solv_glob_for(PackageManager::Zypper, &on),
        Some("/var/cache/zypp/solv/repo_a/solv".to_string())
    );
    let off = repo_enabled("[repo/a]\nenabled=0\n");
    assert_eq!(solv_glob_for(PackageManager::Zypper, &off), None);
}

#[test]
fn inputs_carry_the_repo_name() {
    let repo = repo_enabled("[oss]\nenabled=1\n");
    let paths = vec!["/p/1.solv".to_string(), "/p/2.solv".to_string()];
    let inputs: Vec<SolvInput> = solv_inputs(&repo, &paths);
    assert_eq!(inputs.len(), 2);
    assert_eq!(inputs[0].name, "oss");
    assert_eq!(inputs[0].path, "/p/1.solv");
    assert_eq!(inputs[1].name, "oss");
    assert_eq!(inputs[1].path, "/p/2.solv");
    assert!(solv_inputs(&repo, &Vec::new()).is_empty());
}

#[test]
fn manager_detection_order() {
    assert_eq!(detect_manager(true, true, true), Some(PackageManager::Dnf5));
    assert_eq!(detect_manager(false, true, true), Some(PackageManager::Dnf));
    assert_eq!(detect_manager(false, false, true), Some(PackageManager::Zypper));
    assert_eq!(detect_manager(true, false, false), Some(PackageManager::Dnf5));
    assert_eq!(detect_manager(false, false, false), None);
}

#[test]
fn solv_input_new() {
    let input = SolvInput::new("n".to_string(), "/p".to_string());
    assert_eq!(input.name, "n");
    assert_eq!(input.path, "/p");
}
