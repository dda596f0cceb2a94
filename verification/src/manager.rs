use vstd::prelude::*;
use vstd::string::StringExecFns;

use crate::ini::Repo;
use crate::text::chars_of;

verus! {

/// The package manager whose repositories are searched.
#[derive(Debug, Clone, Copy, PartialEq, Eq, Structural)]
pub enum PackageManager {
    Zypper,
    Dnf,
    Dnf5,
}

/// The package manager to use, given which of /usr/bin/dnf5, /usr/bin/dnf
/// and /usr/bin/zypper are installed: dnf5 first (someone who installs it
/// next to the default zypper means to use it), then dnf (checked after
/// dnf5, as dnf may be a link to dnf5), then zypper.
pub open spec fn spec_detect_manager(dnf5: bool, dnf: bool, zypper: bool) -> Option<
    PackageManager,
> {
    if dnf5 {
        Some(PackageManager::Dnf5)
    } else if dnf {
        Some(PackageManager::Dnf)
    } else if zypper {
        Some(PackageManager::Zypper)
    } else {
        None
    }
}

/// dnf5 is chosen whenever it is installed; dnf when it is installed and
/// dnf5 is not; zypper only when neither is; and none when none of the
/// three is installed.
pub proof fn law_manager_preference(dnf: bool, zypper: bool)
    ensures
        spec_detect_manager(true, dnf, zypper) == Some(PackageManager::Dnf5),
        spec_detect_manager(false, true, zypper) == Some(PackageManager::Dnf),
        spec_detect_manager(false, false, true) == Some(PackageManager::Zypper),
        spec_detect_manager(false, false, false) == None::<PackageManager>,
{
}

/// Picks the package manager from which of /usr/bin/dnf5, /usr/bin/dnf and
/// /usr/bin/zypper exist; `None` where none does.
pub fn detect_manager(dnf5: bool, dnf: bool, zypper: bool) -> (pm: Option<PackageManager>)
    ensures
        pm == spec_detect_manager(dnf5, dnf, zypper),
{
    if dnf5 {
        Some(PackageManager::Dnf5)
    } else if dnf {
        Some(PackageManager::Dnf)
    } else if zypper {
        Some(PackageManager::Zypper)
    } else {
        None
    }
}

/// The patterns of the `.repo` files that a package manager reads
/// (for dnf and dnf5, the default `reposdir` directories).
pub open spec fn spec_repo_globs(pm: PackageManager) -> Seq<Seq<char>> {
    match pm {
        PackageManager::Zypper => seq!["/etc/zypp/repos.d/*.repo"@],
        PackageManager::Dnf => seq![
            "/etc/dnf/repos.d/*.repo"@,
            "/etc/yum.repos.d/*.repo"@,
            "/etc/distro.repos.d/*.repo"@,
        ],
        PackageManager::Dnf5 => seq![
            "/etc/dnf/repos.d/*.repo"@,
            "/etc/yum.repos.d/*.repo"@,
            "/etc/distro.repos.d/*.repo"@,
            "/usr/share/dnf5/repos.d/*.repo"@,
        ],
    }
}

/// A repository name as it stands in a cache path: each '/' becomes '_'.
pub open spec fn underscored(name: Seq<char>) -> Seq<char> {
    name.map_values(|c: char| if c == '/' { '_' } else { c })
}

/// The pattern of the solv cache files of the repository `name`, in the
/// system cache directory of the package manager.
pub open spec fn spec_solv_glob(pm: PackageManager, name: Seq<char>) -> Seq<char> {
    match pm {
        PackageManager::Zypper => "/var/cache/zypp/solv/"@ + underscored(name) + "/solv"@,
        PackageManager::Dnf => "/var/cache/dnf/"@ + underscored(name) + ".solv"@,
        PackageManager::Dnf5 => "/var/cache/libdnf5/"@ + underscored(name) + "-*/solv/*.solv"@,
    }
}

/// The patterns of the `.repo` files that `pm` reads, in the order they
/// are searched.
pub fn repo_globs(pm: PackageManager) -> (globs: Vec<String>)
    ensures
        crate::text::views(globs@) == spec_repo_globs(pm),
{
    let mut globs: Vec<String> = Vec::new();
    match pm {
        PackageManager::Zypper => {
            globs.push("/etc/zypp/repos.d/*.repo".to_owned());
        },
        PackageManager::Dnf => {
            globs.push("/etc/dnf/repos.d/*.repo".to_owned());
            globs.push("/etc/yum.repos.d/*.repo".to_owned());
            globs.push("/etc/distro.repos.d/*.repo".to_owned());
        },
        PackageManager::Dnf5 => {
            globs.push("/etc/dnf/repos.d/*.repo".to_owned());
            globs.push("/etc/yum.repos.d/*.repo".to_owned());
            globs.push("/etc/distro.repos.d/*.repo".to_owned());
            globs.push("/usr/share/dnf5/repos.d/*.repo".to_owned());
        },
    }
    assert(crate::text::views(globs@) =~= spec_repo_globs(pm));
    globs
}

/// `name` with each '/' replaced by '_'.
pub fn replace_slashes(name: &str) -> (r: String)
    ensures
        r@ == underscored(name@),
{
    let ghost s = name@;
    let v = chars_of(name);
    let n = v.len();
    let mut out = String::new();
    let mut start: usize = 0;
    let mut i: usize = 0;
    assert(out@ =~= underscored(s.take(0)));
    while i < n
        invariant
            v@ == s,
            s == name@,
            n == v.len(),
            start <= i <= n,
            out@ == underscored(s.take(start as int)),
            forall|j: int| start <= j < i ==> s[j] != '/',
        decreases n - i,
    {
        if v[i] == '/' {
            let piece = name.substring_char(start, i);
            out.append(piece);
            out.append("_");
            proof {
                reveal_strlit("_");
                assert(out@ =~= underscored(s.take(i + 1)));
            }
            start = i + 1;
        }
        i += 1;
    }
    let piece = name.substring_char(start, n);
    out.append(piece);
    assert(s.take(n as int) =~= s);
    assert(out@ =~= underscored(s));
    out
}

/// The pattern of the solv cache files of the repository `name`.
pub fn solv_glob(pm: PackageManager, name: &str) -> (pattern: String)
    ensures
        pattern@ == spec_solv_glob(pm, name@),
{
    let middle = replace_slashes(name);
    match pm {
        PackageManager::Zypper => {
            let mut p = "/var/cache/zypp/solv/".to_owned();
            p.append(middle.as_str());
            p.append("/solv");
            p
        },
        PackageManager::Dnf => {
            let mut p = "/var/cache/dnf/".to_owned();
            p.append(middle.as_str());
            p.append(".solv");
            p
        },
        PackageManager::Dnf5 => {
            let mut p = "/var/cache/libdnf5/".to_owned();
            p.append(middle.as_str());
            p.append("-*/solv/*.solv");
            p
        },
    }
}

/// The pattern of the solv cache files to load for a repository: only an
/// enabled repository has one.
pub fn solv_glob_for(pm: PackageManager, repo: &Repo) -> (pattern: Option<String>)
    ensures
        pattern is Some <==> repo.enabled,
        pattern matches Some(p) ==> p@ == spec_solv_glob(pm, repo.name@),
{
    if repo.enabled {
        Some(solv_glob(pm, repo.name.as_str()))
    } else {
        None
    }
}

/// A name in a cache path holds no '/', so it names one directory level;
/// it is as long as the name, and keeps every other character in place.
pub proof fn law_underscored_has_no_slash(name: Seq<char>)
    ensures
        underscored(name).len() == name.len(),
        !underscored(name).contains('/'),
        forall|i: int|
            0 <= i < name.len() && name[i] != '/' ==> #[trigger] underscored(name)[i] == name[i],
{
    if underscored(name).contains('/') {
        let i = choose|i: int| 0 <= i < underscored(name).len() && underscored(name)[i] == '/';
        assert(underscored(name)[i] == (if name[i] == '/' { '_' } else { name[i] }));
    }
}

/// The solv pattern of every manager is its fixed prefix, then the name
/// with each '/' (and nothing else) turned into '_', then its fixed suffix.
pub proof fn law_solv_glob_shape(pm: PackageManager, name: Seq<char>)
    ensures
        ({
            let (prefix, suffix) = match pm {
                PackageManager::Zypper => ("/var/cache/zypp/solv/"@, "/solv"@),
                PackageManager::Dnf => ("/var/cache/dnf/"@, ".solv"@),
                PackageManager::Dnf5 => ("/var/cache/libdnf5/"@, "-*/solv/*.solv"@),
            };
            let g = spec_solv_glob(pm, name);
            &&& g.len() == prefix.len() + name.len() + suffix.len()
            &&& g.take(prefix.len() as int) == prefix
            &&& g.skip((prefix.len() + name.len()) as int) == suffix
            &&& forall|i: int|
                0 <= i < name.len() ==> #[trigger] g[prefix.len() + i] == (if name[i] == '/' {
                    '_'
                } else {
                    name[i]
                })
        }),
{
    let (prefix, suffix) = match pm {
        PackageManager::Zypper => ("/var/cache/zypp/solv/"@, "/solv"@),
        PackageManager::Dnf => ("/var/cache/dnf/"@, ".solv"@),
        PackageManager::Dnf5 => ("/var/cache/libdnf5/"@, "-*/solv/*.solv"@),
    };
    let g = spec_solv_glob(pm, name);
    let m = name.map_values(|c: char| if c == '/' { '_' } else { c });
    assert(g == prefix + m + suffix);
    assert(g.take(prefix.len() as int) =~= prefix);
    assert(g.skip((prefix.len() + name.len()) as int) =~= suffix);
    assert forall|i: int| 0 <= i < name.len() implies #[trigger] g[prefix.len() + i] == (if name[i]
        == '/' {
        '_'
    } else {
        name[i]
    }) by {
        assert(g[prefix.len() + i] == m[i]);
    }
}

/// A solv cache file to load, with the name of its repository.
pub struct SolvInput {
    pub name: String,
    pub path: String,
}

impl View for SolvInput {
    type V = (Seq<char>, Seq<char>);

    open spec fn view(&self) -> (Seq<char>, Seq<char>) {
        (self.name@, self.path@)
    }
}

impl SolvInput {
    /// The cache file `path` of the repository `name`.
    pub fn new(name: String, path: String) -> (input: SolvInput)
        ensures
            input.name == name,
            input.path == path,
    {
        SolvInput { name, path }
    }
}

/// The cache files found for a repository, each with the repository's
/// name, in the order they were found.
pub fn solv_inputs(repo: &Repo, paths: &Vec<String>) -> (inputs: Vec<SolvInput>)
    ensures
        inputs@.len() == paths@.len(),
        forall|i: int|
            0 <= i < paths@.len() ==> (#[trigger] inputs@[i])@ == (repo.name@, paths@[i]@),
{
    let mut inputs: Vec<SolvInput> = Vec::new();
    let mut i: usize = 0;
    while i < paths.len()
        invariant
            i <= paths@.len(),
            inputs@.len() == i,
            forall|k: int| 0 <= k < i ==> (#[trigger] inputs@[k])@ == (repo.name@, paths@[k]@),
        decreases paths.len() - i,
    {
        inputs.push(SolvInput::new(repo.name.clone(), paths[i].clone()));
        i += 1;
    }
    inputs
}

} // verus!
