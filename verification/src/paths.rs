//! Where the parts of the runtime live.

use crate::pathname::{
    ends_in_a_name, join_path, law_bare_names, law_file_lies_in_its_directory, law_one_slash_joins,
    parent, path_join, path_parent, plain_name,
};
use vstd::prelude::*;
use vstd::string::*;

verus! {

/// A path of the runtime.
#[derive(Debug, Clone, Copy, PartialEq, Eq, Structural)]
pub enum SonicPiPath {
    Root,
    Ruby,
    BootDaemon,
    Samples,
    ServerBin,
}

/// The paths of the runtime under one root.
#[derive(Debug, Clone)]
pub struct SonicPiPaths {
    pub root: String,
    pub ruby: String,
    pub boot_daemon: String,
    pub samples: String,
    pub server_bin: String,
}

/// Where the server's programs are, under `root`.
pub open spec fn server_bin_path(root: Seq<char>) -> Seq<char> {
    path_join(path_join(path_join(root, "server"@), "ruby"@), "bin"@)
}

/// A path of the runtime whose application directory is `root`.
pub open spec fn runtime_path(root: Seq<char>, id: SonicPiPath) -> Seq<char> {
    match id {
        SonicPiPath::Root => root,
        SonicPiPath::Ruby => "ruby"@,
        SonicPiPath::BootDaemon => path_join(server_bin_path(root), "daemon.rb"@),
        SonicPiPath::Samples => path_join(path_join(path_join(root, ".."@), "etc"@), "samples"@),
        SonicPiPath::ServerBin => server_bin_path(root),
    }
}

impl SonicPiPaths {
    pub open spec fn path_of(&self, id: SonicPiPath) -> Seq<char> {
        match id {
            SonicPiPath::Root => self.root@,
            SonicPiPath::Ruby => self.ruby@,
            SonicPiPath::BootDaemon => self.boot_daemon@,
            SonicPiPath::Samples => self.samples@,
            SonicPiPath::ServerBin => self.server_bin@,
        }
    }

    pub fn get(&self, id: SonicPiPath) -> (r: &String)
        ensures
            r@ == self.path_of(id),
    {
        match id {
            SonicPiPath::Root => &self.root,
            SonicPiPath::Ruby => &self.ruby,
            SonicPiPath::BootDaemon => &self.boot_daemon,
            SonicPiPath::Samples => &self.samples,
            SonicPiPath::ServerBin => &self.server_bin,
        }
    }
}

/// The paths of the runtime whose application directory is `root`.
pub fn resolve(root: &str) -> (r: SonicPiPaths)
    ensures
        forall|id: SonicPiPath| #[trigger] r.path_of(id) == runtime_path(root@, id),
{
    let server: String = join_path(root, "server");
    let ruby: String = join_path(server.as_str(), "ruby");
    let server_bin: String = join_path(ruby.as_str(), "bin");
    let up: String = join_path(root, "..");
    let etc: String = join_path(up.as_str(), "etc");
    SonicPiPaths {
        root: String::from_str(root),
        ruby: String::from_str("ruby"),
        boot_daemon: join_path(server_bin.as_str(), "daemon.rb"),
        samples: join_path(etc.as_str(), "samples"),
        server_bin,
    }
}

/// Where a packaged program has its runtime: beside its own directory.
pub open spec fn bundled_path(exe: Seq<char>) -> Option<Seq<char>> {
    match path_parent(exe) {
        Some(dir) => Some(path_join(dir, "../app"@)),
        None => None,
    }
}

/// Where a packaged program at `exe` has its runtime.
pub fn bundled_root(exe: &str) -> (r: Option<String>)
    ensures
        match r {
            Some(p) => bundled_path(exe@) == Some(p@),
            None => bundled_path(exe@) is None,
        },
{
    match parent(exe) {
        Some(dir) => Some(join_path(dir.as_str(), "../app")),
        None => None,
    }
}

/// The application directory: the one that was chosen, else that of the package if
/// it has a server (`bundled` is `None` if not), else the one of a checkout.
pub fn app_root(chosen: Option<&str>, bundled: Option<&str>, checkout: &str) -> (r: String)
    ensures
        r@ == (match (chosen, bundled) {
            (Some(c), _) => c@,
            (None, Some(b)) => b@,
            (None, None) => path_join(checkout@, "../../app"@),
        }),
{
    match chosen {
        Some(c) => String::from_str(c),
        None => match bundled {
            Some(b) => String::from_str(b),
            None => join_path(checkout, "../../app"),
        },
    }
}

/// The parts of the runtime have their places under its directory, and the samples
/// beside it.
pub proof fn law_runtime_has_its_places(root: Seq<char>)
    requires
        root.len() > 0 && root.last() != '/',
    ensures
        runtime_path(root, SonicPiPath::Root) == root,
        runtime_path(root, SonicPiPath::Ruby) == "ruby"@,
        runtime_path(root, SonicPiPath::BootDaemon) == root + "/server/ruby/bin/daemon.rb"@,
        runtime_path(root, SonicPiPath::ServerBin) == root + "/server/ruby/bin"@,
        runtime_path(root, SonicPiPath::Samples) == root + "/../etc/samples"@,
{
    reveal_strlit("server");
    reveal_strlit("ruby");
    reveal_strlit("bin");
    reveal_strlit("daemon.rb");
    reveal_strlit("..");
    reveal_strlit("etc");
    reveal_strlit("samples");
    reveal_strlit("/server/ruby/bin/daemon.rb");
    reveal_strlit("/server/ruby/bin");
    reveal_strlit("/../etc/samples");
    let a = root.push('/') + "server"@;
    assert(a.last() == 'r');
    let b = a.push('/') + "ruby"@;
    assert(b.last() == 'y');
    let c = b.push('/') + "bin"@;
    assert(c.last() == 'n');
    assert(c =~= root + "/server/ruby/bin"@);
    assert(c.push('/') + "daemon.rb"@ =~= root + "/server/ruby/bin/daemon.rb"@);
    let d = root.push('/') + ".."@;
    assert(d.last() == '.');
    let e = d.push('/') + "etc"@;
    assert(e.last() == 'c');
    assert(e.push('/') + "samples"@ =~= root + "/../etc/samples"@);
}

/// A program in a bundle finds the runtime beside its own directory; a bare name has
/// no directory to start from but the current one.
pub proof fn law_bundled_runtime_lies_beside_the_program(dir: Seq<char>, name: Seq<char>)
    requires
        ends_in_a_name(dir),
        plain_name(name),
    ensures
        bundled_path(dir + "/"@ + name) == Some(dir + "/"@ + "../app"@),
        bundled_path(name) == Some("../app"@),
        bundled_path("/"@) is None,
{
    reveal_strlit("../app");
    reveal_strlit("");
    law_file_lies_in_its_directory(dir, name);
    law_bare_names(name);
    law_one_slash_joins(dir, "../app"@);
    assert(""@ + "../app"@ =~= "../app"@);
}

} // verus!
