//! Build, install and validation targets, the host platforms, and how a
//! requested target list is resolved against a platform.
use vstd::prelude::*;
use crate::manifest::PluginFormat;
use crate::text::{cat, owned, push_str};

verus! {

/// Artifacts the build can produce.
#[derive(Debug, Clone, Copy, PartialEq, Eq, Structural, Hash)]
pub enum Target {
    Clap,
    Vst3,
    Au,
    Standalone,
}

/// Targets that can be installed or uninstalled.
#[derive(Debug, Clone, Copy, PartialEq, Eq, Structural, Hash)]
pub enum PluginTarget {
    Clap,
    Vst3,
    Au,
}

/// Targets that can be validated.
#[derive(Debug, Clone, Copy, PartialEq, Eq, Structural, Hash)]
pub enum ValidateTarget {
    Clap,
    Vst3,
    Au,
    Standalone,
}

/// Host operating systems.
#[derive(Debug, Clone, Copy, PartialEq, Eq, Structural)]
pub enum Platform {
    Macos,
    Windows,
    Linux,
}

pub open spec fn target_display(t: Target) -> Seq<char> {
    match t {
        Target::Clap => "CLAP"@,
        Target::Vst3 => "VST3"@,
        Target::Au => "AU"@,
        Target::Standalone => "Standalone"@,
    }
}

pub open spec fn plugin_target_target(t: PluginTarget) -> Target {
    match t {
        PluginTarget::Clap => Target::Clap,
        PluginTarget::Vst3 => Target::Vst3,
        PluginTarget::Au => Target::Au,
    }
}

pub open spec fn validate_target_target(t: ValidateTarget) -> Target {
    match t {
        ValidateTarget::Clap => Target::Clap,
        ValidateTarget::Vst3 => Target::Vst3,
        ValidateTarget::Au => Target::Au,
        ValidateTarget::Standalone => Target::Standalone,
    }
}

impl Target {
    /// The display name of the target.
    pub fn display(self) -> (r: &'static str)
        ensures
            r@ == target_display(self),
    {
        match self {
            Target::Clap => "CLAP",
            Target::Vst3 => "VST3",
            Target::Au => "AU",
            Target::Standalone => "Standalone",
        }
    }

    /// Whether the target is built through clap-wrapper.
    pub fn is_wrapper(self) -> (r: bool)
        ensures
            r == (self == Target::Vst3 || self == Target::Au),
    {
        matches!(self, Target::Vst3 | Target::Au)
    }
}

impl PluginTarget {
    /// The display name of the target.
    pub fn display(self) -> (r: &'static str)
        ensures
            r@ == target_display(plugin_target_target(self)),
    {
        match self {
            PluginTarget::Clap => "CLAP",
            PluginTarget::Vst3 => "VST3",
            PluginTarget::Au => "AU",
        }
    }

    /// The build target that produces this artifact.
    pub fn target(self) -> (r: Target)
        ensures
            r == plugin_target_target(self),
    {
        match self {
            PluginTarget::Clap => Target::Clap,
            PluginTarget::Vst3 => Target::Vst3,
            PluginTarget::Au => Target::Au,
        }
    }

    /// The plugin format of this artifact.
    pub fn format(self) -> (r: PluginFormat)
        ensures
            r == plugin_target_format(self),
    {
        match self {
            PluginTarget::Clap => PluginFormat::Clap,
            PluginTarget::Vst3 => PluginFormat::Vst3,
            PluginTarget::Au => PluginFormat::Au,
        }
    }
}

pub open spec fn plugin_target_format(t: PluginTarget) -> PluginFormat {
    match t {
        PluginTarget::Clap => PluginFormat::Clap,
        PluginTarget::Vst3 => PluginFormat::Vst3,
        PluginTarget::Au => PluginFormat::Au,
    }
}

impl ValidateTarget {
    /// The display name of the target.
    pub fn display(self) -> (r: &'static str)
        ensures
            r@ == target_display(validate_target_target(self)),
    {
        match self {
            ValidateTarget::Clap => "CLAP",
            ValidateTarget::Vst3 => "VST3",
            ValidateTarget::Au => "AU",
            ValidateTarget::Standalone => "Standalone",
        }
    }

    /// The build target that produces the artifact under validation.
    pub fn target(self) -> (r: Target)
        ensures
            r == validate_target_target(self),
    {
        match self {
            ValidateTarget::Clap => Target::Clap,
            ValidateTarget::Vst3 => Target::Vst3,
            ValidateTarget::Au => Target::Au,
            ValidateTarget::Standalone => Target::Standalone,
        }
    }
}

pub open spec fn supports_au(p: Platform) -> bool {
    p == Platform::Macos
}

/// Every platform this tool runs on builds VST3 plugins.
pub open spec fn supports_vst3(p: Platform) -> bool {
    true
}

pub open spec fn platform_supports(p: Platform, t: Target) -> bool {
    match t {
        Target::Clap => true,
        Target::Vst3 => supports_vst3(p),
        Target::Au => supports_au(p),
        Target::Standalone => true,
    }
}

pub open spec fn default_build(p: Platform) -> Seq<Target> {
    match p {
        Platform::Macos => seq![Target::Clap, Target::Vst3, Target::Au, Target::Standalone],
        _ => seq![Target::Clap, Target::Vst3, Target::Standalone],
    }
}

pub open spec fn default_plugin(p: Platform) -> Seq<PluginTarget> {
    match p {
        Platform::Macos => seq![PluginTarget::Clap, PluginTarget::Vst3, PluginTarget::Au],
        _ => seq![PluginTarget::Clap, PluginTarget::Vst3],
    }
}

pub open spec fn default_validate(p: Platform) -> Seq<ValidateTarget> {
    match p {
        Platform::Macos => seq![
            ValidateTarget::Clap,
            ValidateTarget::Vst3,
            ValidateTarget::Au,
            ValidateTarget::Standalone,
        ],
        _ => seq![ValidateTarget::Clap, ValidateTarget::Vst3, ValidateTarget::Standalone],
    }
}

impl Platform {
    /// The platform named by an operating-system identifier (`std::env::consts::OS`).
    pub fn from_os(os: &str) -> (r: Result<Platform, String>)
        ensures
            os@ == "macos"@ ==> r == Ok::<Platform, String>(Platform::Macos),
            os@ != "macos"@ && os@ == "windows"@ ==> r == Ok::<Platform, String>(Platform::Windows),
            os@ != "macos"@ && os@ != "windows"@ && os@ == "linux"@ ==> r == Ok::<Platform, String>(Platform::Linux),
            os@ != "macos"@ && os@ != "windows"@ && os@ != "linux"@ ==> (r matches Err(e) && e@
                == "unsupported operating system"@),
    {
        if crate::text::str_eq(os, "macos") {
            Ok(Platform::Macos)
        } else if crate::text::str_eq(os, "windows") {
            Ok(Platform::Windows)
        } else if crate::text::str_eq(os, "linux") {
            Ok(Platform::Linux)
        } else {
            Err(owned("unsupported operating system"))
        }
    }

    /// Whether VST3 plugins can be built here.
    pub fn supports_vst3(self) -> (r: bool)
        ensures
            r == supports_vst3(self),
    {
        matches!(self, Platform::Macos | Platform::Windows | Platform::Linux)
    }

    /// Whether clap-wrapper builds are possible here.
    pub fn supports_wrappers(self) -> (r: bool)
        ensures
            r == (supports_vst3(self) || supports_au(self)),
    {
        self.supports_vst3() || self.supports_au()
    }

    /// Whether AU plugins can be built here.
    pub fn supports_au(self) -> (r: bool)
        ensures
            r == supports_au(self),
    {
        self == Platform::Macos
    }

    /// Whether `target` can be built here.
    pub fn supports_target(self, target: Target) -> (r: bool)
        ensures
            r == platform_supports(self, target),
    {
        match target {
            Target::Clap => true,
            Target::Vst3 => self.supports_vst3(),
            Target::Au => self.supports_au(),
            Target::Standalone => matches!(self, Platform::Macos | Platform::Windows | Platform::Linux),
        }
    }

    /// Everything a developer expects an unqualified build to produce.
    pub fn default_build_targets(self) -> (r: Vec<Target>)
        ensures
            r@ == default_build(self),
    {
        let v = match self {
            Platform::Macos => vec![Target::Clap, Target::Vst3, Target::Au, Target::Standalone],
            Platform::Windows => vec![Target::Clap, Target::Vst3, Target::Standalone],
            Platform::Linux => vec![Target::Clap, Target::Vst3, Target::Standalone],
        };
        assert(v@ =~= default_build(self));
        v
    }

    /// The plugin artifacts installed by default.
    pub fn default_plugin_targets(self) -> (r: Vec<PluginTarget>)
        ensures
            r@ == default_plugin(self),
    {
        let v = match self {
            Platform::Macos => vec![PluginTarget::Clap, PluginTarget::Vst3, PluginTarget::Au],
            Platform::Windows => vec![PluginTarget::Clap, PluginTarget::Vst3],
            Platform::Linux => vec![PluginTarget::Clap, PluginTarget::Vst3],
        };
        assert(v@ =~= default_plugin(self));
        v
    }

    /// The artifacts validated by default.
    pub fn default_validate_targets(self) -> (r: Vec<ValidateTarget>)
        ensures
            r@ == default_validate(self),
    {
        let v = match self {
            Platform::Macos => vec![
                ValidateTarget::Clap,
                ValidateTarget::Vst3,
                ValidateTarget::Au,
                ValidateTarget::Standalone,
            ],
            Platform::Windows => vec![
                ValidateTarget::Clap,
                ValidateTarget::Vst3,
                ValidateTarget::Standalone,
            ],
            Platform::Linux => vec![
                ValidateTarget::Clap,
                ValidateTarget::Vst3,
                ValidateTarget::Standalone,
            ],
        };
        assert(v@ =~= default_validate(self));
        v
    }

    /// The CMake generator used for wrapper builds, when one is fixed.
    pub fn cmake_generator(self) -> (r: Option<&'static str>)
        ensures
            self == Platform::Macos ==> (r matches Some(g) && g@ == "Xcode"@),
            self == Platform::Windows ==> (r matches Some(g) && g@ == "Visual Studio 17 2022"@),
            self == Platform::Linux ==> r is None,
    {
        match self {
            Platform::Macos => Some("Xcode"),
            Platform::Windows => Some("Visual Studio 17 2022"),
            Platform::Linux => None,
        }
    }

    /// The file name of a crate's dynamic library.
    pub fn dynamic_library_name(self, crate_name: &str) -> (r: String)
        ensures
            r@ == match self {
                Platform::Macos => "lib"@ + crate_name@ + ".dylib"@,
                Platform::Windows => crate_name@ + ".dll"@,
                Platform::Linux => "lib"@ + crate_name@ + ".so"@,
            },
    {
        match self {
            Platform::Macos => crate::text::cat3("lib", crate_name, ".dylib"),
            Platform::Windows => cat(crate_name, ".dll"),
            Platform::Linux => crate::text::cat3("lib", crate_name, ".so"),
        }
    }

    /// The file name of a crate's static library.
    pub fn static_library_name(self, crate_name: &str) -> (r: String)
        ensures
            r@ == match self {
                Platform::Windows => crate_name@ + ".lib"@,
                _ => "lib"@ + crate_name@ + ".a"@,
            },
    {
        match self {
            Platform::Windows => cat(crate_name, ".lib"),
            Platform::Macos | Platform::Linux => crate::text::cat3("lib", crate_name, ".a"),
        }
    }
}

/// Target enums that can be compared and reported.
pub trait TargetKind: Sized + Copy {
    /// The build target behind this value.
    spec fn build_target_of(self) -> Target;

    /// Whether two values are the same target.
    fn same(&self, other: &Self) -> (r: bool)
        ensures
            r == (*self == *other);

    /// The build target behind this value.
    fn build_target(&self) -> (r: Target)
        ensures
            r == self.build_target_of();
}

impl TargetKind for Target {
    open spec fn build_target_of(self) -> Target {
        self
    }

    fn same(&self, other: &Self) -> (r: bool) {
        *self == *other
    }

    fn build_target(&self) -> (r: Target) {
        *self
    }
}

impl TargetKind for PluginTarget {
    open spec fn build_target_of(self) -> Target {
        plugin_target_target(self)
    }

    fn same(&self, other: &Self) -> (r: bool) {
        *self == *other
    }

    fn build_target(&self) -> (r: Target) {
        self.target()
    }
}

impl TargetKind for ValidateTarget {
    open spec fn build_target_of(self) -> Target {
        validate_target_target(self)
    }

    fn same(&self, other: &Self) -> (r: bool) {
        *self == *other
    }

    fn build_target(&self) -> (r: Target) {
        self.target()
    }
}

/// The items of `s` in order, each kept only at its first occurrence.
pub open spec fn dedup_seq<T>(s: Seq<T>) -> Seq<T>
    decreases s.len(),
{
    if s.len() == 0 {
        s
    } else {
        let d = dedup_seq(s.drop_last());
        if d.contains(s.last()) {
            d
        } else {
            d.push(s.last())
        }
    }
}

fn contains_target<T: TargetKind>(v: &Vec<T>, t: &T) -> (r: bool)
    ensures
        r == v@.contains(*t),
{
    let mut i: usize = 0;
    while i < v.len()
        invariant
            i <= v.len(),
            forall|j: int| 0 <= j < i ==> v@[j] != *t,
        decreases v.len() - i,
    {
        if v[i].same(t) {
            return true;
        }
        i += 1;
    }
    false
}

/// Drops repeated targets while keeping the order of first occurrences, so
/// that `--target=vst3,vst3` is accepted.
pub fn dedup<T: TargetKind>(targets: Vec<T>) -> (r: Vec<T>)
    ensures
        r@ == dedup_seq(targets@),
{
    let mut unique: Vec<T> = Vec::new();
    let mut i: usize = 0;
    while i < targets.len()
        invariant
            i <= targets.len(),
            unique@ == dedup_seq(targets@.take(i as int)),
        decreases targets.len() - i,
    {
        let t = targets[i];
        proof {
            assert(targets@.take(i + 1).drop_last() =~= targets@.take(i as int));
        }
        if !contains_target(&unique, &t) {
            unique.push(t);
        }
        i += 1;
    }
    assert(targets@.take(targets.len() as int) =~= targets@);
    unique
}

/// Whether each item of `s` occurs only once.
pub open spec fn no_repeats<T>(s: Seq<T>) -> bool {
    forall|i: int, j: int| 0 <= i < j < s.len() ==> s[i] != s[j]
}

/// Dropping repeats leaves each target once, keeps exactly the targets that
/// were given, and changes nothing when applied again.
pub proof fn lemma_dedup_properties<T>(s: Seq<T>)
    ensures
        no_repeats(dedup_seq(s)),
        forall|x: T| dedup_seq(s).contains(x) <==> s.contains(x),
        dedup_seq(dedup_seq(s)) == dedup_seq(s),
    decreases s.len(),
{
    if s.len() > 0 {
        lemma_dedup_properties(s.drop_last());
        let d = dedup_seq(s.drop_last());
        let p = s.drop_last();
        assert forall|x: T| s.contains(x) <==> (p.contains(x) || x == s.last()) by {
            if s.contains(x) {
                let k = choose|k: int| 0 <= k < s.len() && s[k] == x;
                if k < s.len() - 1 {
                    assert(p[k] == x);
                }
            }
            if p.contains(x) {
                let k = choose|k: int| 0 <= k < p.len() && p[k] == x;
                assert(s[k] == x);
            }
            if x == s.last() {
                assert(s[s.len() - 1] == x);
            }
        }
        assert forall|x: T| dedup_seq(s).contains(x) <==> (d.contains(x) || x == s.last()) by {
            if !d.contains(s.last()) {
                let e = d.push(s.last());
                if e.contains(x) {
                    let k = choose|k: int| 0 <= k < e.len() && e[k] == x;
                    if k < d.len() {
                        assert(d[k] == x);
                    }
                }
                if d.contains(x) {
                    let k = choose|k: int| 0 <= k < d.len() && d[k] == x;
                    assert(e[k] == x);
                }
                assert(e[d.len() as int] == s.last());
            }
        }
        if !d.contains(s.last()) {
            let e = d.push(s.last());
            assert forall|i: int, j: int| 0 <= i < j < e.len() implies e[i] != e[j] by {
                if j == d.len() {
                    assert(d[i] == e[i]);
                }
            }
        }
        lemma_dedup_fixed(dedup_seq(s));
    }
}

/// A sequence without repeats is its own deduplication.
pub proof fn lemma_dedup_fixed<T>(s: Seq<T>)
    requires
        no_repeats(s),
    ensures
        dedup_seq(s) == s,
    decreases s.len(),
{
    if s.len() > 0 {
        let p = s.drop_last();
        assert(no_repeats(p));
        lemma_dedup_fixed(p);
        if p.contains(s.last()) {
            let k = choose|k: int| 0 <= k < p.len() && p[k] == s.last();
            assert(s[k] == s[s.len() - 1]);
        }
        assert(p.push(s.last()) =~= s);
    }
}

/// The error for a target the platform cannot build.
pub open spec fn unsupported_message(t: Target) -> Seq<char> {
    target_display(t) + " is not supported on this operating system"@
}

/// The first of `ts` that the platform cannot build.
pub open spec fn first_unsupported<T: TargetKind>(p: Platform, ts: Seq<T>) -> Option<Target>
    decreases ts.len(),
{
    if ts.len() == 0 {
        None
    } else if !platform_supports(p, ts[0].build_target_of()) {
        Some(ts[0].build_target_of())
    } else {
        first_unsupported(p, ts.drop_first())
    }
}

proof fn lemma_first_unsupported_step<T: TargetKind>(p: Platform, ts: Seq<T>, i: int)
    requires
        0 <= i <= ts.len(),
        forall|j: int| 0 <= j < i ==> platform_supports(p, (#[trigger] ts[j]).build_target_of()),
    ensures
        first_unsupported(p, ts) == first_unsupported(p, ts.skip(i)),
    decreases i,
{
    if i > 0 {
        lemma_first_unsupported_step(p, ts, i - 1);
        assert(ts.skip(i - 1).drop_first() =~= ts.skip(i));
    } else {
        assert(ts.skip(0) =~= ts);
    }
}

/// The targets of a request: the platform defaults when the request is empty.
/// A target list is buildable on a platform exactly when it asks for AU
/// only on macOS: CLAP, VST3 and the standalone app build everywhere, AU
/// only on macOS.
#[verifier::spinoff_prover]
pub proof fn lemma_supported_iff_au_only_on_macos<T: TargetKind>(p: Platform, ts: Seq<T>)
    ensures
        first_unsupported(p, ts) is None <==> forall|i: int|
            0 <= i < ts.len() ==> (#[trigger] ts[i].build_target_of() == Target::Au ==> p == Platform::Macos),
        first_unsupported(p, ts) matches Some(t) ==> t == Target::Au && p != Platform::Macos,
    decreases ts.len(),
{
    if ts.len() > 0 {
        lemma_supported_iff_au_only_on_macos(p, ts.drop_first());
        assert forall|i: int| 0 < i < ts.len() implies ts[i] == ts.drop_first()[i - 1] by {}
        if forall|i: int|
            0 <= i < ts.len() ==> (#[trigger] ts[i].build_target_of() == Target::Au ==> p == Platform::Macos) {
            assert forall|i: int|
                0 <= i < ts.drop_first().len() implies (#[trigger] ts.drop_first()[i].build_target_of()
                == Target::Au ==> p == Platform::Macos) by {
                assert(ts.drop_first()[i] == ts[i + 1]);
            }
        }
    }
}

/// The resolved build targets hold AU only on macOS: a request for AU
/// elsewhere is refused, and a resolved list never contains it there.
pub proof fn lemma_resolved_build_targets_buildable(p: Platform, requested: Seq<Target>)
    ensures
        ({
            let ts = requested_or(requested, default_build(p));
            &&& first_unsupported(p, ts) is None ==> forall|x: Target|
                dedup_seq(ts).contains(x) && x == Target::Au ==> p == Platform::Macos
            &&& requested.contains(Target::Au) && p != Platform::Macos ==> first_unsupported(p, ts) is Some
        }),
{
    let ts = requested_or(requested, default_build(p));
    lemma_supported_iff_au_only_on_macos(p, ts);
    lemma_dedup_properties(ts);
    if first_unsupported(p, ts) is None {
        assert forall|x: Target| dedup_seq(ts).contains(x) && x == Target::Au implies p == Platform::Macos by {
            assert(ts.contains(x));
            let k = choose|k: int| 0 <= k < ts.len() && ts[k] == x;
            assert(ts[k].build_target_of() == Target::Au);
        }
    }
    if requested.contains(Target::Au) && p != Platform::Macos {
        let k = choose|k: int| 0 <= k < requested.len() && requested[k] == Target::Au;
        assert(ts[k].build_target_of() == Target::Au);
    }
}

/// The resolved install targets hold AU only on macOS.
pub proof fn lemma_resolved_plugin_targets_buildable(p: Platform, requested: Seq<PluginTarget>)
    ensures
        ({
            let ts = requested_or(requested, default_plugin(p));
            &&& first_unsupported(p, ts) is None ==> forall|x: PluginTarget|
                dedup_seq(ts).contains(x) && x == PluginTarget::Au ==> p == Platform::Macos
            &&& requested.contains(PluginTarget::Au) && p != Platform::Macos ==> first_unsupported(p, ts) is Some
        }),
{
    let ts = requested_or(requested, default_plugin(p));
    lemma_supported_iff_au_only_on_macos(p, ts);
    lemma_dedup_properties(ts);
    if first_unsupported(p, ts) is None {
        assert forall|x: PluginTarget| dedup_seq(ts).contains(x) && x == PluginTarget::Au implies p
            == Platform::Macos by {
            assert(ts.contains(x));
            let k = choose|k: int| 0 <= k < ts.len() && ts[k] == x;
            assert(ts[k].build_target_of() == Target::Au);
        }
    }
    if requested.contains(PluginTarget::Au) && p != Platform::Macos {
        let k = choose|k: int| 0 <= k < requested.len() && requested[k] == PluginTarget::Au;
        assert(ts[k].build_target_of() == Target::Au);
    }
}

/// The resolved validation targets hold AU only on macOS.
pub proof fn lemma_resolved_validate_targets_buildable(p: Platform, requested: Seq<ValidateTarget>)
    ensures
        ({
            let ts = requested_or(requested, default_validate(p));
            &&& first_unsupported(p, ts) is None ==> forall|x: ValidateTarget|
                dedup_seq(ts).contains(x) && x == ValidateTarget::Au ==> p == Platform::Macos
            &&& requested.contains(ValidateTarget::Au) && p != Platform::Macos ==> first_unsupported(p, ts) is Some
        }),
{
    let ts = requested_or(requested, default_validate(p));
    lemma_supported_iff_au_only_on_macos(p, ts);
    lemma_dedup_properties(ts);
    if first_unsupported(p, ts) is None {
        assert forall|x: ValidateTarget| dedup_seq(ts).contains(x) && x == ValidateTarget::Au implies p
            == Platform::Macos by {
            assert(ts.contains(x));
            let k = choose|k: int| 0 <= k < ts.len() && ts[k] == x;
            assert(ts[k].build_target_of() == Target::Au);
        }
    }
    if requested.contains(ValidateTarget::Au) && p != Platform::Macos {
        let k = choose|k: int| 0 <= k < requested.len() && requested[k] == ValidateTarget::Au;
        assert(ts[k].build_target_of() == Target::Au);
    }
}

pub open spec fn requested_or<T>(requested: Seq<T>, defaults: Seq<T>) -> Seq<T> {
    if requested.len() == 0 {
        defaults
    } else {
        requested
    }
}

fn check_supported<T: TargetKind>(platform: Platform, targets: &Vec<T>) -> (r: Result<(), String>)
    ensures
        r is Ok <==> first_unsupported(platform, targets@) is None,
        r matches Err(e) ==> e@ == unsupported_message(first_unsupported(platform, targets@)->0),
{
    let mut i: usize = 0;
    while i < targets.len()
        invariant
            i <= targets.len(),
            forall|j: int| 0 <= j < i ==> platform_supports(platform, (#[trigger] targets@[j]).build_target_of()),
        decreases targets.len() - i,
    {
        let t = targets[i].build_target();
        if !platform.supports_target(t) {
            proof {
                lemma_first_unsupported_step(platform, targets@, i as int);
            }
            return Err(cat(t.display(), " is not supported on this operating system"));
        }
        i += 1;
    }
    proof {
        lemma_first_unsupported_step(platform, targets@, targets.len() as int);
    }
    Ok(())
}

/// The build targets of a request on `platform`.
pub fn resolve_build_targets(platform: Platform, requested: &[Target]) -> (r: Result<Vec<Target>, String>)
    ensures
        ({
            let ts = requested_or(requested@, default_build(platform));
            let bad = first_unsupported(platform, ts);
            &&& r is Ok <==> bad is None
            &&& r matches Ok(v) ==> v@ == dedup_seq(ts)
            &&& r matches Err(e) ==> e@ == unsupported_message(bad->0)
        }),
{
    let targets = if requested.len() == 0 {
        platform.default_build_targets()
    } else {
        vstd::slice::slice_to_vec(requested)
    };
    check_supported(platform, &targets)?;
    Ok(dedup(targets))
}

/// The installable targets of a request on `platform`.
pub fn resolve_plugin_targets(platform: Platform, requested: &[PluginTarget]) -> (r: Result<
    Vec<PluginTarget>,
    String,
>)
    ensures
        ({
            let ts = requested_or(requested@, default_plugin(platform));
            let bad = first_unsupported(platform, ts);
            &&& r is Ok <==> bad is None
            &&& r matches Ok(v) ==> v@ == dedup_seq(ts)
            &&& r matches Err(e) ==> e@ == unsupported_message(bad->0)
        }),
{
    let targets = if requested.len() == 0 {
        platform.default_plugin_targets()
    } else {
        vstd::slice::slice_to_vec(requested)
    };
    check_supported(platform, &targets)?;
    Ok(dedup(targets))
}

/// The validation targets of a request on `platform`.
pub fn resolve_validate_targets(platform: Platform, requested: &[ValidateTarget]) -> (r: Result<
    Vec<ValidateTarget>,
    String,
>)
    ensures
        ({
            let ts = requested_or(requested@, default_validate(platform));
            let bad = first_unsupported(platform, ts);
            &&& r is Ok <==> bad is None
            &&& r matches Ok(v) ==> v@ == dedup_seq(ts)
            &&& r matches Err(e) ==> e@ == unsupported_message(bad->0)
        }),
{
    let targets = if requested.len() == 0 {
        platform.default_validate_targets()
    } else {
        vstd::slice::slice_to_vec(requested)
    };
    check_supported(platform, &targets)?;
    Ok(dedup(targets))
}

} // verus!
