//! The build tool's decisions: where things go, which commands it runs, and
//! how archive entry names are formed from paths.
use vstd::prelude::*;

use crate::text::{chars_eq, chars_of, push_char};

verus! {

/// A cargo invocation: its arguments and the environment it adds.
#[derive(Debug)]
pub struct CargoCommand {
    pub args: Vec<String>,
    pub envs: Vec<(String, String)>,
}

/// Texts, as plain values.
pub open spec fn strings_view(v: Seq<String>) -> Seq<Seq<char>> {
    v.map_values(|s: String| s@)
}

pub open spec fn envs_view(v: Seq<(String, String)>) -> Seq<(Seq<char>, Seq<char>)> {
    v.map_values(|p: (String, String)| (p.0@, p.1@))
}

/// The profile directory name.
pub open spec fn profile_spec(release: bool) -> Seq<char> {
    if release {
        "release"@
    } else {
        "debug"@
    }
}

fn profile(release: bool) -> (r: String)
    ensures
        r@ == profile_spec(release),
{
    if release {
        "release".to_owned()
    } else {
        "debug".to_owned()
    }
}

/// Joins path parts with `/`.
pub open spec fn join_spec(parts: Seq<Seq<char>>) -> Seq<char>
    decreases parts.len(),
{
    if parts.len() == 0 {
        Seq::empty()
    } else if parts.len() == 1 {
        parts[0]
    } else {
        join_spec(parts.drop_last()) + seq!['/'] + parts.last()
    }
}

fn append_str(s: &mut String, t: &str)
    ensures
        final(s)@ == old(s)@ + t@,
{
    let v = chars_of(t);
    let mut i: usize = 0;
    while i < v.len()
        invariant
            i <= v@.len(),
            v@ == t@,
            s@ == old(s)@ + v@.take(i as int),
        decreases v@.len() - i,
    {
        push_char(s, v[i]);
        assert(old(s)@ + v@.take(i as int) + seq![v@[i as int]] =~= old(s)@ + v@.take(i + 1));
        i += 1;
    }
    assert(v@.take(v@.len() as int) =~= v@);
}

/// Joins path parts with `/`.
fn join(parts: &Vec<String>) -> (r: String)
    ensures
        r@ == join_spec(strings_view(parts@)),
{
    let mut r = String::new();
    let mut i: usize = 0;
    while i < parts.len()
        invariant
            i <= parts@.len(),
            r@ == join_spec(strings_view(parts@.take(i as int))),
        decreases parts@.len() - i,
    {
        let ghost before = r@;
        if i > 0 {
            push_char(&mut r, '/');
        }
        append_str(&mut r, parts[i].as_str());
        proof {
            assert(strings_view(parts@.take(i + 1)).drop_last() =~= strings_view(parts@.take(i as int)));
            if i == 0 {
                assert(before =~= Seq::<char>::empty());
            }
        }
        i += 1;
    }
    assert(parts@.take(parts@.len() as int) =~= parts@);
    r
}

/// `module`: the module's files.
pub fn module_dir() -> (r: String)
    ensures
        r@ == "module"@,
{
    "module".to_owned()
}

/// `output/.temp/<profile>`: where the package is assembled.
pub fn temp_dir(release: bool) -> (r: String)
    ensures
        r@ == join_spec(seq!["output"@, ".temp"@, profile_spec(release)]),
{
    let parts = vec!["output".to_owned(), ".temp".to_owned(), profile(release)];
    assert(strings_view(parts@) =~= seq!["output"@, ".temp"@, profile_spec(release)]);
    join(&parts)
}

/// `target/aarch64-linux-android/<profile>/fas-rs`: the built binary.
pub fn bin_path(release: bool) -> (r: String)
    ensures
        r@ == join_spec(seq!["target"@, "aarch64-linux-android"@, profile_spec(release), "fas-rs"@]),
{
    let parts = vec![
        "target".to_owned(),
        "aarch64-linux-android".to_owned(),
        profile(release),
        "fas-rs".to_owned(),
    ];
    assert(strings_view(parts@) =~= seq![
        "target"@,
        "aarch64-linux-android"@,
        profile_spec(release),
        "fas-rs"@,
    ]);
    join(&parts)
}

/// `webui/webroot`: the built web interface.
pub fn webroot_dir() -> (r: String)
    ensures
        r@ == join_spec(seq!["webui"@, "webroot"@]),
{
    let parts = vec!["webui".to_owned(), "webroot".to_owned()];
    assert(strings_view(parts@) =~= seq!["webui"@, "webroot"@]);
    join(&parts)
}

/// The arguments every NDK cargo call starts with.
pub open spec fn ndk_args() -> Seq<Seq<char>> {
    seq!["+nightly"@, "ndk"@, "--platform"@, "31"@, "-t"@, "arm64-v8a"@]
}

/// The environment every NDK cargo call adds.
pub open spec fn ndk_envs() -> Seq<(Seq<char>, Seq<char>)> {
    seq![("RUSTFLAGS"@, "-C default-linker-libraries"@)]
}

/// The arguments that pick the target and build the standard library.
pub open spec fn target_args(cmd: Seq<char>) -> Seq<Seq<char>> {
    seq![cmd, "--target"@, "aarch64-linux-android"@, "-Z"@, "build-std"@, "-Z"@, "trim-paths"@]
}

pub open spec fn flag_args(release: bool, verbose: bool) -> Seq<Seq<char>> {
    (if release {
        seq!["--release"@]
    } else {
        seq![]
    }) + (if verbose {
        seq!["--verbose"@]
    } else {
        seq![]
    })
}

fn push_str(v: &mut Vec<String>, s: &str)
    ensures
        strings_view(final(v)@) == strings_view(old(v)@).push(s@),
{
    v.push(s.to_owned());
    assert(strings_view(v@) =~= strings_view(old(v)@).push(s@));
}

fn ndk_command() -> (r: CargoCommand)
    ensures
        strings_view(r.args@) == ndk_args(),
        envs_view(r.envs@) == ndk_envs(),
{
    let mut args: Vec<String> = Vec::new();
    push_str(&mut args, "+nightly");
    push_str(&mut args, "ndk");
    push_str(&mut args, "--platform");
    push_str(&mut args, "31");
    push_str(&mut args, "-t");
    push_str(&mut args, "arm64-v8a");
    let envs = vec![("RUSTFLAGS".to_owned(), "-C default-linker-libraries".to_owned())];
    assert(strings_view(args@) =~= ndk_args());
    assert(envs_view(envs@) =~= ndk_envs());
    CargoCommand { args, envs }
}

/// The cargo call that checks the build for the phone.
pub fn check(release: bool, verbose: bool) -> (r: CargoCommand)
    ensures
        strings_view(r.args@) == ndk_args() + target_args("check"@) + flag_args(release, verbose),
        envs_view(r.envs@) == ndk_envs() + ndk_envs(),
{
    let mut c = ndk_command();
    let ghost a0 = strings_view(c.args@);
    push_str(&mut c.args, "check");
    push_str(&mut c.args, "--target");
    push_str(&mut c.args, "aarch64-linux-android");
    push_str(&mut c.args, "-Z");
    push_str(&mut c.args, "build-std");
    push_str(&mut c.args, "-Z");
    push_str(&mut c.args, "trim-paths");
    let ghost a1 = strings_view(c.args@);
    assert(a1 =~= a0 + target_args("check"@));
    c.envs.push(("RUSTFLAGS".to_owned(), "-C default-linker-libraries".to_owned()));
    assert(envs_view(c.envs@) =~= ndk_envs() + ndk_envs());
    if release {
        push_str(&mut c.args, "--release");
    }
    let ghost a2 = strings_view(c.args@);
    if verbose {
        push_str(&mut c.args, "--verbose");
    }
    assert(strings_view(c.args@) =~= a1 + flag_args(release, verbose));
    c
}

/// The cargo call that builds the binary for the phone.
pub fn build_command(release: bool, verbose: bool) -> (r: CargoCommand)
    ensures
        strings_view(r.args@) == ndk_args() + target_args("build"@) + flag_args(release, verbose),
        envs_view(r.envs@) == ndk_envs(),
{
    let mut c = ndk_command();
    let ghost a0 = strings_view(c.args@);
    push_str(&mut c.args, "build");
    push_str(&mut c.args, "--target");
    push_str(&mut c.args, "aarch64-linux-android");
    push_str(&mut c.args, "-Z");
    push_str(&mut c.args, "build-std");
    push_str(&mut c.args, "-Z");
    push_str(&mut c.args, "trim-paths");
    let ghost a1 = strings_view(c.args@);
    assert(a1 =~= a0 + target_args("build"@));
    if release {
        push_str(&mut c.args, "--release");
    }
    if verbose {
        push_str(&mut c.args, "--verbose");
    }
    assert(strings_view(c.args@) =~= a1 + flag_args(release, verbose));
    c
}

/// `output/fas-rs(<profile>).zip`: the package the build writes.
pub fn package_path(release: bool) -> (r: String)
    ensures
        r@ == join_spec(seq!["output"@, "fas-rs("@ + profile_spec(release) + ").zip"@]),
{
    let mut name = "fas-rs(".to_owned();
    let p = profile(release);
    append_str(&mut name, p.as_str());
    append_str(&mut name, ").zip");
    let parts = vec!["output".to_owned(), name];
    assert(strings_view(parts@) =~= seq!["output"@, "fas-rs("@ + profile_spec(release) + ").zip"@]);
    join(&parts)
}

/// The arguments of the formatting run.
pub open spec fn format_args_spec(verbose: bool) -> Seq<Seq<char>> {
    seq!["fmt"@, "--all"@] + if verbose {
        seq!["--verbose"@]
    } else {
        seq![]
    }
}

/// The cargo arguments that format the sources.
pub fn format_args(verbose: bool) -> (r: Vec<String>)
    ensures
        strings_view(r@) == format_args_spec(verbose),
{
    let mut args: Vec<String> = Vec::new();
    push_str(&mut args, "fmt");
    push_str(&mut args, "--all");
    let ghost a0 = strings_view(args@);
    if verbose {
        push_str(&mut args, "--verbose");
    }
    assert(strings_view(args@) =~= format_args_spec(verbose));
    args
}

/// The arguments of a clippy run.
pub open spec fn clippy_args(fix: bool) -> Seq<Seq<char>> {
    seq!["clippy"@] + (if fix {
        seq!["--fix"@, "--allow-dirty"@, "--allow-staged"@, "--all"@]
    } else {
        seq![]
    }) + seq!["--target"@, "aarch64-linux-android"@]
}

fn clippy_command(fix: bool) -> (r: CargoCommand)
    ensures
        strings_view(r.args@) == ndk_args() + clippy_args(fix),
        envs_view(r.envs@) == ndk_envs(),
{
    let mut c = ndk_command();
    let ghost a0 = strings_view(c.args@);
    push_str(&mut c.args, "clippy");
    if fix {
        push_str(&mut c.args, "--fix");
        push_str(&mut c.args, "--allow-dirty");
        push_str(&mut c.args, "--allow-staged");
        push_str(&mut c.args, "--all");
    }
    push_str(&mut c.args, "--target");
    push_str(&mut c.args, "aarch64-linux-android");
    assert(strings_view(c.args@) =~= a0 + clippy_args(fix));
    c
}

/// The two clippy runs of the lint command: the debug build, then the release build.
pub fn lint(fix: bool) -> (r: (CargoCommand, CargoCommand))
    ensures
        strings_view(r.0.args@) == ndk_args() + clippy_args(fix),
        strings_view(r.1.args@) == ndk_args() + clippy_args(fix) + seq!["--release"@],
        envs_view(r.0.envs@) == ndk_envs(),
        envs_view(r.1.envs@) == ndk_envs(),
{
    let a = clippy_command(fix);
    let mut b = clippy_command(fix);
    push_str(&mut b.args, "--release");
    (a, b)
}

/// A part of a path.
#[derive(Debug)]
pub enum PathComponent {
    Prefix(String),
    RootDir,
    CurDir,
    ParentDir,
    Normal(String),
}

pub enum PathComponentView {
    Prefix(Seq<char>),
    RootDir,
    CurDir,
    ParentDir,
    Normal(Seq<char>),
}

impl View for PathComponent {
    type V = PathComponentView;

    open spec fn view(&self) -> PathComponentView {
        match self {
            PathComponent::Prefix(s) => PathComponentView::Prefix(s@),
            PathComponent::RootDir => PathComponentView::RootDir,
            PathComponent::CurDir => PathComponentView::CurDir,
            PathComponent::ParentDir => PathComponentView::ParentDir,
            PathComponent::Normal(s) => PathComponentView::Normal(s@),
        }
    }
}

pub open spec fn components_view(v: Seq<PathComponent>) -> Seq<PathComponentView> {
    v.map_values(|c: PathComponent| c@)
}

fn component_eq(a: &PathComponent, b: &PathComponent) -> (r: bool)
    ensures
        r == (a@ == b@),
{
    match (a, b) {
        (PathComponent::Prefix(x), PathComponent::Prefix(y)) => chars_eq(
            &chars_of(x.as_str()),
            &chars_of(y.as_str()),
        ),
        (PathComponent::RootDir, PathComponent::RootDir) => true,
        (PathComponent::CurDir, PathComponent::CurDir) => true,
        (PathComponent::ParentDir, PathComponent::ParentDir) => true,
        (PathComponent::Normal(x), PathComponent::Normal(y)) => chars_eq(
            &chars_of(x.as_str()),
            &chars_of(y.as_str()),
        ),
        _ => false,
    }
}

fn component_copy(a: &PathComponent) -> (r: PathComponent)
    ensures
        r@ == a@,
{
    match a {
        PathComponent::Prefix(x) => PathComponent::Prefix(x.clone()),
        PathComponent::RootDir => PathComponent::RootDir,
        PathComponent::CurDir => PathComponent::CurDir,
        PathComponent::ParentDir => PathComponent::ParentDir,
        PathComponent::Normal(x) => PathComponent::Normal(x.clone()),
    }
}

/// The part of `current` below `root`: nothing when they differ within the
/// length of `root`, else the components of `current` past those of `root`.
pub open spec fn relative_spec(root: Seq<PathComponentView>, current: Seq<PathComponentView>) -> Seq<
    PathComponentView,
> {
    if exists|i: int| 0 <= i < root.len() && i < current.len() && root[i] != current[i] {
        Seq::empty()
    } else if current.len() > root.len() {
        current.skip(root.len() as int)
    } else {
        Seq::empty()
    }
}

/// The path of `current` relative to `root`.
pub fn make_relative_path(root: &Vec<PathComponent>, current: &Vec<PathComponent>) -> (r: Vec<
    PathComponent,
>)
    ensures
        components_view(r@) == relative_spec(components_view(root@), components_view(current@)),
{
    let ghost rv = components_view(root@);
    let ghost cv = components_view(current@);
    let mut result: Vec<PathComponent> = Vec::new();
    let mut i: usize = 0;
    while i < current.len()
        invariant
            i <= current@.len(),
            rv == components_view(root@),
            cv == components_view(current@),
            forall|j: int| 0 <= j < i && j < root@.len() ==> rv[j] == cv[j],
            components_view(result@) == (if i > root@.len() {
                cv.subrange(root@.len() as int, i as int)
            } else {
                Seq::empty()
            }),
        decreases current@.len() - i,
    {
        if i < root.len() {
            if !component_eq(&root[i], &current[i]) {
                assert(rv[i as int] != cv[i as int]);
                assert(relative_spec(rv, cv) =~= Seq::<PathComponentView>::empty());
                assert(components_view(result@) =~= Seq::<PathComponentView>::empty());
                return result;
            }
        } else {
            let ghost before = components_view(result@);
            result.push(component_copy(&current[i]));
            assert(components_view(result@) =~= before.push(cv[i as int]));
            assert(cv.subrange(root@.len() as int, i + 1) =~= (if i > root@.len() {
                cv.subrange(root@.len() as int, i as int)
            } else {
                Seq::empty()
            }).push(cv[i as int]));
        }
        i += 1;
    }
    proof {
        if exists|j: int| 0 <= j < rv.len() && j < cv.len() && rv[j] != cv[j] {
            let j = choose|j: int| 0 <= j < rv.len() && j < cv.len() && rv[j] != cv[j];
            assert(rv[j] == cv[j]);
        }
        if cv.len() > rv.len() {
            assert(cv.subrange(root@.len() as int, i as int) =~= cv.skip(rv.len() as int));
        }
    }
    assert(components_view(result@) =~= relative_spec(rv, cv));
    result
}

/// The normal components of a path, joined with `/`.
pub open spec fn path_string_spec(cs: Seq<PathComponentView>) -> Seq<char>
    decreases cs.len(),
{
    if cs.len() == 0 {
        Seq::empty()
    } else {
        let before = path_string_spec(cs.drop_last());
        match cs.last() {
            PathComponentView::Normal(s) => if before.len() == 0 {
                s
            } else {
                before + seq!['/'] + s
            },
            _ => before,
        }
    }
}

/// A path as an archive entry name: its normal components joined with `/`.
pub fn path_as_string(path: &Vec<PathComponent>) -> (r: String)
    ensures
        r@ == path_string_spec(components_view(path@)),
{
    let mut r = String::new();
    let mut i: usize = 0;
    while i < path.len()
        invariant
            i <= path@.len(),
            r@ == path_string_spec(components_view(path@.take(i as int))),
        decreases path@.len() - i,
    {
        proof {
            assert(components_view(path@.take(i + 1)).drop_last() =~= components_view(path@.take(i as int)));
            assert(components_view(path@.take(i + 1)).last() == path@[i as int]@);
        }
        match &path[i] {
            PathComponent::Normal(s) => {
                if r.as_str().unicode_len() > 0 {
                    push_char(&mut r, '/');
                }
                append_str(&mut r, s.as_str());
            },
            _ => {},
        }
        i += 1;
    }
    assert(path@.take(path@.len() as int) =~= path@);
    r
}

} // verus!
