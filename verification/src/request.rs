//! The request for a discovery, and what it asks of the configuration tool.

use crate::text::{owned, pair_views, same_text, texts};
use vstd::prelude::*;

verus! {

/// What one build asks of the discovery.
#[derive(Debug, Clone, PartialEq, Eq)]
pub struct DiscoveryRequest {
    /// Build against a multithreaded library.
    pub multithread: bool,
    /// Build against a distributed library.
    pub distributed: bool,
    /// Build against a library accelerated with CUDA.
    pub cuda: bool,
    /// With CUDA, use cuQuantum as well.
    pub cuquantum: bool,
    /// Build against a library accelerated with HIP.
    pub hip: bool,
    /// Where a pre-installed library lies, if the environment says so.
    pub directory_override: Option<String>,
    /// The tag of the platform that the build is for, such as `windows` or `macos`.
    pub platform: String,
    /// The environment names a C compiler.
    pub c_compiler_given: bool,
    /// The environment names a C++ compiler.
    pub cxx_compiler_given: bool,
    /// The name of the target whose document is looked for.
    pub target: String,
}

/// The mathematical value of a `DiscoveryRequest`.
pub struct RequestView {
    pub multithread: bool,
    pub distributed: bool,
    pub cuda: bool,
    pub cuquantum: bool,
    pub hip: bool,
    pub directory_override: Option<Seq<char>>,
    pub platform: Seq<char>,
    pub c_compiler_given: bool,
    pub cxx_compiler_given: bool,
    pub target: Seq<char>,
}

impl View for DiscoveryRequest {
    type V = RequestView;

    open spec fn view(&self) -> RequestView {
        RequestView {
            multithread: self.multithread,
            distributed: self.distributed,
            cuda: self.cuda,
            cuquantum: self.cuquantum,
            hip: self.hip,
            directory_override: match self.directory_override {
                Some(d) => Some(d@),
                None => None,
            },
            platform: self.platform@,
            c_compiler_given: self.c_compiler_given,
            cxx_compiler_given: self.cxx_compiler_given,
            target: self.target@,
        }
    }
}

/// `list` with the setting `name` = `value` at its end, if `wanted` holds.
pub open spec fn setting_if(
    list: Seq<(Seq<char>, Seq<char>)>,
    wanted: bool,
    name: Seq<char>,
    value: Seq<char>,
) -> Seq<(Seq<char>, Seq<char>)> {
    if wanted {
        list.push((name, value))
    } else {
        list
    }
}

/// The settings for the compilers: on macOS, `clang` and `clang++` unless the
/// environment names a compiler.
pub open spec fn compiler_settings(r: RequestView) -> Seq<(Seq<char>, Seq<char>)> {
    let mac = r.platform == "macos"@;
    setting_if(
        setting_if(Seq::empty(), mac && !r.c_compiler_given, "CMAKE_C_COMPILER"@, "clang"@),
        mac && !r.cxx_compiler_given,
        "CMAKE_CXX_COMPILER"@,
        "clang++"@,
    )
}

/// `list` with the settings that switch on the features asked for. cuQuantum is
/// switched on only together with CUDA.
pub open spec fn feature_settings(list: Seq<(Seq<char>, Seq<char>)>, r: RequestView) -> Seq<
    (Seq<char>, Seq<char>),
> {
    setting_if(
        setting_if(
            setting_if(
                setting_if(
                    setting_if(list, r.multithread, "ENABLE_MULTITHREADING"@, "ON"@),
                    r.distributed,
                    "ENABLE_DISTRIBUTION"@,
                    "ON"@,
                ),
                r.cuda,
                "ENABLE_CUDA"@,
                "ON"@,
            ),
            r.cuda && r.cuquantum,
            "ENABLE_CUQUANTUM"@,
            "ON"@,
        ),
        r.hip,
        "ENABLE_HIP"@,
        "ON"@,
    )
}

/// `list` with `name` at its end, if `wanted` holds.
pub open spec fn name_if(list: Seq<Seq<char>>, wanted: bool, name: Seq<char>) -> Seq<Seq<char>> {
    if wanted {
        list.push(name)
    } else {
        list
    }
}

/// The names of the features that are switched on, in a fixed order. cuQuantum counts
/// only together with CUDA.
pub open spec fn enabled_features(r: RequestView) -> Seq<Seq<char>> {
    name_if(
        name_if(
            name_if(
                name_if(name_if(Seq::empty(), r.multithread, "openmp"@), r.distributed, "mpi"@),
                r.cuda,
                "cuda"@,
            ),
            r.cuda && r.cuquantum,
            "cuquantum"@,
        ),
        r.hip,
        "hip"@,
    )
}

/// The settings handed to the configuration tool: compilers, features, and the
/// directory override as the prefix path, in that order.
pub open spec fn tool_settings(r: RequestView) -> Seq<(Seq<char>, Seq<char>)> {
    let base = feature_settings(compiler_settings(r), r);
    match r.directory_override {
        Some(dir) => base.push(("CMAKE_PREFIX_PATH"@, dir)),
        None => base,
    }
}

/// The two alternate variables that name a pre-installed library root, and the
/// variable that names further search prefixes for the configuration tool.
pub open spec fn watched_variable_names() -> Seq<Seq<char>> {
    seq!["QUEST_DIR"@, "QUEST_ROOT"@, "CMAKE_PREFIX_PATH"@]
}

/// The name of the target that links against the library for no other purpose than to
/// be looked for.
pub open spec fn bootstrap_target_name() -> Seq<char> {
    "quest_dummy"@
}

/// The first of two alternate sources that gives a value.
pub open spec fn first_given(primary: Option<Seq<char>>, secondary: Option<Seq<char>>) -> Option<
    Seq<char>,
> {
    match primary {
        Some(p) => Some(p),
        None => secondary,
    }
}

/// Adds `name` to `list`, if `wanted` holds.
fn push_name(list: &mut Vec<String>, wanted: bool, name: &str)
    ensures
        texts(final(list)@) == name_if(texts(old(list)@), wanted, name@),
{
    if wanted {
        list.push(owned(name));
        proof {
            assert(texts(list@) =~= texts(old(list)@).push(name@));
        }
    }
}

/// Adds the setting `name` = `value` to `list`, if `wanted` holds.
fn push_setting(list: &mut Vec<(String, String)>, wanted: bool, name: &str, value: &str)
    ensures
        pair_views(final(list)@) == setting_if(pair_views(old(list)@), wanted, name@, value@),
{
    if wanted {
        list.push((owned(name), owned(value)));
    }
}

/// The environment variables on which a discovery depends. When one of them changes,
/// the discovery has to run again.
pub fn watched_variables() -> (r: Vec<String>)
    ensures
        texts(r@) == watched_variable_names(),
{
    let mut out: Vec<String> = Vec::new();
    out.push(owned("QUEST_DIR"));
    out.push(owned("QUEST_ROOT"));
    out.push(owned("CMAKE_PREFIX_PATH"));
    out
}

/// The name of the target that a discovery looks for unless told otherwise.
pub fn bootstrap_target() -> (r: String)
    ensures
        r@ == bootstrap_target_name(),
{
    owned("quest_dummy")
}

/// The directory override that the environment gives: the value of the first of its
/// two alternate variables that is set.
pub fn choose_override(primary: Option<String>, secondary: Option<String>) -> (r: Option<String>)
    ensures
        match r {
            Some(d) => first_given(
                match primary {
                    Some(p) => Some(p@),
                    None => None,
                },
                match secondary {
                    Some(s) => Some(s@),
                    None => None,
                },
            ) == Some(d@),
            None => primary is None && secondary is None,
        },
{
    match primary {
        Some(p) => Some(p),
        None => secondary,
    }
}

impl DiscoveryRequest {
    /// Whether the build is for Windows.
    pub fn is_windows(&self) -> (r: bool)
        ensures
            r == (self@.platform == "windows"@),
    {
        let tag = owned("windows");
        same_text(&self.platform, &tag)
    }

    /// Whether the build is for macOS.
    pub fn is_macos(&self) -> (r: bool)
        ensures
            r == (self@.platform == "macos"@),
    {
        let tag = owned("macos");
        same_text(&self.platform, &tag)
    }

    /// The names of the features that are switched on.
    pub fn features(&self) -> (r: Vec<String>)
        ensures
            texts(r@) == enabled_features(self@),
    {
        let mut out: Vec<String> = Vec::new();
        proof {
            assert(texts(out@) =~= Seq::empty());
        }
        push_name(&mut out, self.multithread, "openmp");
        push_name(&mut out, self.distributed, "mpi");
        push_name(&mut out, self.cuda, "cuda");
        push_name(&mut out, self.cuda && self.cuquantum, "cuquantum");
        push_name(&mut out, self.hip, "hip");
        out
    }

    /// The settings to hand to the configuration tool, name and value, in order.
    pub fn tool_definitions(&self) -> (r: Vec<(String, String)>)
        ensures
            pair_views(r@) == tool_settings(self@),
    {
        let mac = self.is_macos();
        let mut out: Vec<(String, String)> = Vec::new();
        proof {
            assert(pair_views(out@) =~= Seq::empty());
        }
        push_setting(&mut out, mac && !self.c_compiler_given, "CMAKE_C_COMPILER", "clang");
        push_setting(&mut out, mac && !self.cxx_compiler_given, "CMAKE_CXX_COMPILER", "clang++");
        push_setting(&mut out, self.multithread, "ENABLE_MULTITHREADING", "ON");
        push_setting(&mut out, self.distributed, "ENABLE_DISTRIBUTION", "ON");
        push_setting(&mut out, self.cuda, "ENABLE_CUDA", "ON");
        push_setting(&mut out, self.cuda && self.cuquantum, "ENABLE_CUQUANTUM", "ON");
        push_setting(&mut out, self.hip, "ENABLE_HIP", "ON");
        match &self.directory_override {
            Some(dir) => {
                out.push((owned("CMAKE_PREFIX_PATH"), dir.clone()));
            },
            None => {},
        }
        out
    }
}

} // verus!
