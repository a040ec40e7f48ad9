//! The size rules of the plugin editor: sizes clamped to the editor's
//! limits, the host-confirmed size and its revision, the resize hints, which
//! unit the host's GUI sizes are in, and the per-plugin WebView data folder.
use vstd::prelude::*;
use crate::text::{chars_of, string_of, take_until};

verus! {

/// An editor size in the unit the host uses at the CLAP GUI boundary.
#[derive(Debug, Clone, Copy, PartialEq, Eq, Structural)]
pub struct GuiSize {
    pub width: u32,
    pub height: u32,
}

/// The smallest and largest editor sizes.
#[derive(Debug, Clone, Copy, PartialEq, Eq, Structural)]
pub struct GuiSizeLimits {
    pub min: GuiSize,
    pub max: GuiSize,
}

/// Limits that some size meets: the minimum is not above the maximum.
pub open spec fn limits_ok(limits: GuiSizeLimits) -> bool {
    limits.min.width <= limits.max.width && limits.min.height <= limits.max.height
}

/// `v` brought into `[lo, hi]`.
pub open spec fn clamp_spec(v: u32, lo: u32, hi: u32) -> u32 {
    if v < lo {
        lo
    } else if v > hi {
        hi
    } else {
        v
    }
}

fn clamp_u32(v: u32, lo: u32, hi: u32) -> (r: u32)
    requires
        lo <= hi,
    ensures
        r == clamp_spec(v, lo, hi),
{
    if v < lo {
        lo
    } else if v > hi {
        hi
    } else {
        v
    }
}

/// Each side of `size` brought within the limits.
pub open spec fn clamped(size: GuiSize, limits: GuiSizeLimits) -> GuiSize {
    GuiSize {
        width: clamp_spec(size.width, limits.min.width, limits.max.width),
        height: clamp_spec(size.height, limits.min.height, limits.max.height),
    }
}

/// The size within the limits that is nearest to `size`, side by side.
pub fn clamp_size_with_limits(size: GuiSize, limits: GuiSizeLimits) -> (r: GuiSize)
    requires
        limits_ok(limits),
    ensures
        r == clamped(size, limits),
        limits.min.width <= r.width <= limits.max.width,
        limits.min.height <= r.height <= limits.max.height,
{
    GuiSize {
        width: clamp_u32(size.width, limits.min.width, limits.max.width),
        height: clamp_u32(size.height, limits.min.height, limits.max.height),
    }
}

/// The host size brought within the editor's physical limits, as the
/// WebView session does before it sizes the view.
pub fn clamp_size(size: GuiSize, limits: GuiSizeLimits) -> (r: GuiSize)
    requires
        limits_ok(limits),
    ensures
        r == clamped(size, limits),
{
    clamp_size_with_limits(size, limits)
}

/// A size within its limits is left as it is, so clamping twice changes
/// nothing more than clamping once.
pub proof fn lemma_clamp_idempotent(size: GuiSize, limits: GuiSizeLimits)
    requires
        limits_ok(limits),
    ensures
        clamped(clamped(size, limits), limits) == clamped(size, limits),
        (limits.min.width <= size.width <= limits.max.width && limits.min.height <= size.height
            <= limits.max.height) ==> clamped(size, limits) == size,
{
}

/// The width in the high and the height in the low 32 bits.
pub open spec fn packed(size: GuiSize) -> int {
    (size.width as u64) * 0x1_0000_0000 + (size.height as u64)
}

/// A size as one 64-bit word, so that both sides are stored at once.
pub fn pack_size(size: GuiSize) -> (r: u64)
    ensures
        r == packed(size),
{
    let w = size.width as u64;
    let h = size.height as u64;
    let r = (w << 32u64) | h;
    assert(r == w * 0x1_0000_0000 + h) by (bit_vector)
        requires
            w <= 0xFFFF_FFFF,
            h <= 0xFFFF_FFFF,
            r == (w << 32u64) | h,
    ;
    r
}

/// The size stored in a word: the high 32 bits are the width, the low the height.
pub fn unpack_size(word: u64) -> (r: GuiSize)
    ensures
        r.width == word / 0x1_0000_0000,
        r.height == word % 0x1_0000_0000,
{
    let w = (word >> 32u64) as u32;
    let h = word as u32;
    assert(w == word / 0x1_0000_0000 && h == word % 0x1_0000_0000) by (bit_vector)
        requires
            w == (word >> 32u64) as u32,
            h == word as u32,
    ;
    GuiSize { width: w, height: h }
}

/// Unpacking a packed size gives the size back.
pub proof fn lemma_pack_roundtrip(size: GuiSize)
    ensures
        packed(size) / 0x1_0000_0000 == size.width,
        packed(size) % 0x1_0000_0000 == size.height,
{
    let w = size.width as u64;
    let h = size.height as u64;
    assert((w * 0x1_0000_0000 + h) / 0x1_0000_0000 == w && (w * 0x1_0000_0000 + h) % 0x1_0000_0000 == h)
        by (nonlinear_arith)
        requires
            w <= 0xFFFF_FFFF,
            h <= 0xFFFF_FFFF,
    ;
}

/// How the host may resize the editor.
#[derive(Debug, Clone, Copy, PartialEq, Eq, Structural)]
pub struct GuiResizeHints {
    pub can_resize_horizontally: bool,
    pub can_resize_vertically: bool,
    pub preserve_aspect_ratio: bool,
    pub aspect_ratio_width: u32,
    pub aspect_ratio_height: u32,
}

/// Whether the editor can be resized.
#[derive(Debug, Clone, Copy, PartialEq, Eq, Structural)]
pub struct GuiResizePolicy {
    can_resize: bool,
}

impl GuiResizePolicy {
    /// A resizable editor.
    pub fn resizable() -> (r: GuiResizePolicy)
        ensures
            r.can_resize_spec(),
    {
        GuiResizePolicy { can_resize: true }
    }

    pub closed spec fn can_resize_spec(self) -> bool {
        self.can_resize
    }

    /// Whether the editor can be resized.
    pub fn can_resize(self) -> (r: bool)
        ensures
            r == self.can_resize_spec(),
    {
        self.can_resize
    }

    /// Free resizing in both directions when resizable, without a fixed
    /// aspect ratio.
    pub fn resize_hints(self) -> (r: GuiResizeHints)
        ensures
            r == (GuiResizeHints {
                can_resize_horizontally: self.can_resize_spec(),
                can_resize_vertically: self.can_resize_spec(),
                preserve_aspect_ratio: false,
                aspect_ratio_width: 0,
                aspect_ratio_height: 0,
            }),
    {
        GuiResizeHints {
            can_resize_horizontally: self.can_resize,
            can_resize_vertically: self.can_resize,
            preserve_aspect_ratio: false,
            aspect_ratio_width: 0,
            aspect_ratio_height: 0,
        }
    }
}

/// The unit of the sizes exchanged with the host.
#[derive(Debug, Clone, Copy, PartialEq, Eq, Structural)]
pub enum HostGuiSizeUnit {
    PhysicalPixels,
    LogicalPoints,
}

/// The editor layout the host agreed on: the size it last confirmed, a
/// revision that counts the confirmations, the limits, the resize policy
/// and the size unit.
pub struct HostGuiLayout {
    accepted_size: GuiSize,
    accepted_size_revision: u64,
    limits: GuiSizeLimits,
    resize_policy: GuiResizePolicy,
    host_size_unit: HostGuiSizeUnit,
}

impl HostGuiLayout {
    pub closed spec fn accepted(&self) -> GuiSize {
        self.accepted_size
    }

    pub closed spec fn revision(&self) -> u64 {
        self.accepted_size_revision
    }

    pub closed spec fn limits(&self) -> GuiSizeLimits {
        self.limits
    }

    pub closed spec fn policy(&self) -> GuiResizePolicy {
        self.resize_policy
    }

    pub closed spec fn unit(&self) -> HostGuiSizeUnit {
        self.host_size_unit
    }

    /// A layout whose first size is `size` clamped to the limits, at
    /// revision 0, in physical pixels.
    pub fn new(size: GuiSize, limits: GuiSizeLimits, resize_policy: GuiResizePolicy) -> (r: HostGuiLayout)
        requires
            limits_ok(limits),
        ensures
            r.accepted() == clamped(size, limits),
            r.revision() == 0,
            r.limits() == limits,
            r.policy() == resize_policy,
            r.unit() == HostGuiSizeUnit::PhysicalPixels,
    {
        let size = clamp_size_with_limits(size, limits);
        HostGuiLayout {
            accepted_size: size,
            accepted_size_revision: 0,
            limits,
            resize_policy,
            host_size_unit: HostGuiSizeUnit::PhysicalPixels,
        }
    }

    /// The size the host last confirmed.
    pub fn accepted_size(&self) -> (r: GuiSize)
        ensures
            r == self.accepted(),
    {
        self.accepted_size
    }

    /// How many sizes the host has confirmed.
    pub fn accepted_size_revision(&self) -> (r: u64)
        ensures
            r == self.revision(),
    {
        self.accepted_size_revision
    }

    /// Records a size the host confirmed; the revision moves on (wrapping,
    /// as the atomic counter does).
    pub fn store_accepted_size(&mut self, size: GuiSize)
        ensures
            final(self).accepted() == size,
            final(self).revision() == if old(self).revision() == u64::MAX {
                0
            } else {
                (old(self).revision() + 1) as u64
            },
            final(self).limits() == old(self).limits(),
            final(self).policy() == old(self).policy(),
            final(self).unit() == old(self).unit(),
    {
        self.accepted_size = size;
        self.accepted_size_revision = self.accepted_size_revision.wrapping_add(1);
    }

    /// The size within the limits nearest to `size`.
    pub fn clamp_size(&self, size: GuiSize) -> (r: GuiSize)
        requires
            limits_ok(self.limits()),
        ensures
            r == clamped(size, self.limits()),
    {
        clamp_size_with_limits(size, self.limits)
    }

    pub fn set_host_size_unit(&mut self, unit: HostGuiSizeUnit)
        ensures
            final(self).unit() == unit,
            final(self).accepted() == old(self).accepted(),
            final(self).revision() == old(self).revision(),
            final(self).limits() == old(self).limits(),
            final(self).policy() == old(self).policy(),
    {
        self.host_size_unit = unit;
    }

    pub fn host_size_unit(&self) -> (r: HostGuiSizeUnit)
        ensures
            r == self.unit(),
    {
        self.host_size_unit
    }

    pub fn can_resize(&self) -> (r: bool)
        ensures
            r == self.policy().can_resize_spec(),
    {
        self.resize_policy.can_resize()
    }

    pub fn resize_hints(&self) -> (r: GuiResizeHints)
        ensures
            r == (GuiResizeHints {
                can_resize_horizontally: self.policy().can_resize_spec(),
                can_resize_vertically: self.policy().can_resize_spec(),
                preserve_aspect_ratio: false,
                aspect_ratio_width: 0,
                aspect_ratio_height: 0,
            }),
    {
        self.resize_policy.resize_hints()
    }
}

/// What `set_size` does with the attached WebView runtime.
#[derive(Debug, Clone, Copy, PartialEq, Eq, Structural)]
pub struct SetSizeActions {
    /// The size recorded as accepted: the request within the limits.
    pub size: GuiSize,
    /// Apply the size to the runtime now (it differs from the last one).
    pub apply_to_runtime: bool,
    /// Post a second application of the size after the host settles.
    pub post_resync: bool,
}

impl HostGuiLayout {
    /// The host's `set_size`: clamps the request, records it as accepted
    /// (repeats of the same size are recorded too, so that a re-entrant
    /// resize request sees the host's answer), and says what the runtime
    /// must do. Identical bounds are not re-applied; Cubase's VST3 host gets
    /// a delayed resync.
    pub fn set_size(&mut self, requested: GuiSize, has_runtime: bool, policy: HostGuiPolicy) -> (r:
        SetSizeActions)
        requires
            limits_ok(old(self).limits()),
        ensures
            r.size == clamped(requested, old(self).limits()),
            r.apply_to_runtime == (has_runtime && r.size != old(self).accepted()),
            r.post_resync == (has_runtime && policy.family == HostFamily::SteinbergCubase
                && policy.plugin_format == HostPluginFormat::Vst3),
            final(self).accepted() == r.size,
            final(self).revision() == if old(self).revision() == u64::MAX {
                0
            } else {
                (old(self).revision() + 1) as u64
            },
            final(self).limits() == old(self).limits(),
            final(self).policy() == old(self).policy(),
            final(self).unit() == old(self).unit(),
    {
        let size = self.clamp_size(requested);
        let previous = self.accepted_size();
        let size_changed = previous.width != size.width || previous.height != size.height;
        let post_resync = has_runtime && policy.should_async_resync_bounds_after_set_size();
        self.store_accepted_size(size);
        SetSizeActions { size, apply_to_runtime: has_runtime && size_changed, post_resync }
    }
}

/// The hosts whose editor handling differs.
#[derive(Debug, Clone, Copy, PartialEq, Eq, Structural)]
pub enum HostFamily {
    SteinbergCubase,
    Other,
    Unknown,
}

/// The plugin format a host loaded the plugin as.
#[derive(Debug, Clone, Copy, PartialEq, Eq, Structural)]
pub enum HostPluginFormat {
    Clap,
    Vst3,
    Au,
    Aax,
    Standalone,
}

/// Editor handling that depends on the host and the plugin format.
#[derive(Debug, Clone, Copy, PartialEq, Eq, Structural)]
pub struct HostGuiPolicy {
    pub family: HostFamily,
    pub plugin_format: HostPluginFormat,
}

impl HostGuiPolicy {
    /// Cubase's VST3 host needs the WebView bounds synced again after `set_size`.
    pub fn should_async_resync_bounds_after_set_size(&self) -> (r: bool)
        ensures
            r == (self.family == HostFamily::SteinbergCubase && self.plugin_format == HostPluginFormat::Vst3),
    {
        self.family == HostFamily::SteinbergCubase && self.plugin_format == HostPluginFormat::Vst3
    }

    /// Cubase's VST3 host reports a scale that needs correcting.
    pub fn needs_cubase_vst3_scale_correction(&self) -> (r: bool)
        ensures
            r == (self.family == HostFamily::SteinbergCubase && self.plugin_format == HostPluginFormat::Vst3),
    {
        self.family == HostFamily::SteinbergCubase && self.plugin_format == HostPluginFormat::Vst3
    }

    /// On macOS the wrapper formats (VST3, AU, AAX) exchange Cocoa logical
    /// points at the CLAP GUI boundary; everything else is in physical pixels.
    pub fn host_size_unit(&self, target_is_macos: bool) -> (r: HostGuiSizeUnit)
        ensures
            r == if target_is_macos && (self.plugin_format == HostPluginFormat::Vst3 || self.plugin_format
                == HostPluginFormat::Au || self.plugin_format == HostPluginFormat::Aax) {
                HostGuiSizeUnit::LogicalPoints
            } else {
                HostGuiSizeUnit::PhysicalPixels
            },
    {
        let wrapper = match self.plugin_format {
            HostPluginFormat::Vst3 | HostPluginFormat::Au | HostPluginFormat::Aax => true,
            _ => false,
        };
        if target_is_macos && wrapper {
            HostGuiSizeUnit::LogicalPoints
        } else {
            HostGuiSizeUnit::PhysicalPixels
        }
    }
}

/// Characters kept in a WebView data folder name.
pub open spec fn data_dir_char(c: char) -> bool {
    ('0' <= c <= '9') || ('a' <= c <= 'z') || ('A' <= c <= 'Z') || c == '.' || c == '-'
}

/// A plugin id with every other character replaced by `_`.
pub open spec fn sanitized(id: Seq<char>) -> Seq<char> {
    id.map_values(|c: char| if data_dir_char(c) { c } else { '_' })
}

/// The WebView data folder name of a plugin: its id, with every character
/// other than ASCII letters, digits, `.` and `-` replaced by `_`.
pub fn sanitize_plugin_data_dir(plugin_id: &str) -> (r: String)
    ensures
        r@ == sanitized(plugin_id@),
{
    let v = chars_of(plugin_id);
    let mut out: Vec<char> = Vec::new();
    let mut i: usize = 0;
    while i < v.len()
        invariant
            i <= v.len(),
            v@ == plugin_id@,
            out@ == sanitized(v@.take(i as int)),
        decreases v.len() - i,
    {
        let c = v[i];
        let keep = ('0' <= c && c <= '9') || ('a' <= c && c <= 'z') || ('A' <= c && c <= 'Z') || c == '.' || c
            == '-';
        out.push(if keep { c } else { '_' });
        assert(sanitized(v@.take(i + 1)) =~= sanitized(v@.take(i as int)).push(if keep { c } else { '_' }));
        i += 1;
    }
    assert(v@.take(v.len() as int) =~= v@);
    string_of(&out, 0, out.len())
}

/// `s` with every `.` replaced by `-`.
pub open spec fn dots_to_dashes(s: Seq<char>) -> Seq<char> {
    s.map_values(|c: char| if c == '.' { '-' } else { c })
}

/// The qualifier, organization and application of a reverse-DNS plugin id:
/// the first two dot-separated parts, and the rest with its dots written as
/// dashes, which must not be empty.
pub open spec fn project_parts(id: Seq<char>) -> Option<(Seq<char>, Seq<char>, Seq<char>)> {
    let qualifier = take_until(id, '.');
    if qualifier.len() == id.len() {
        None
    } else {
        let rest = id.skip(qualifier.len() as int + 1);
        let organization = take_until(rest, '.');
        if organization.len() == rest.len() {
            None
        } else {
            let application = dots_to_dashes(rest.skip(organization.len() as int + 1));
            if application.len() == 0 {
                None
            } else {
                Some((qualifier, organization, application))
            }
        }
    }
}

/// The parts of a plugin id that name its per-user data folder.
pub fn project_dir_parts(plugin_id: &str) -> (r: Option<(String, String, String)>)
    ensures
        match project_parts(plugin_id@) {
            Some((q, o, a)) => r matches Some((rq, ro, ra)) && rq@ == q && ro@ == o && ra@ == a,
            None => r is None,
        },
{
    let v = chars_of(plugin_id);
    let i = crate::text::find_from(&v, 0, '.');
    proof {
        assert(v@.skip(0) =~= v@);
        assert(v@.subrange(0, i as int).len() == i);
    }
    if i == v.len() {
        return None;
    }
    let j = crate::text::find_from(&v, i + 1, '.');
    proof {
        let rest = v@.skip(i + 1);
        assert(v@.skip(i + 1) =~= rest);
        assert(v@.subrange(i + 1, j as int).len() == j - i - 1);
    }
    if j == v.len() {
        return None;
    }
    let mut app: Vec<char> = Vec::new();
    let mut k: usize = j + 1;
    while k < v.len()
        invariant
            j + 1 <= k <= v.len(),
            app@ == dots_to_dashes(v@.subrange(j + 1, k as int)),
        decreases v.len() - k,
    {
        let c = v[k];
        app.push(if c == '.' { '-' } else { c });
        assert(dots_to_dashes(v@.subrange(j + 1, k + 1)) =~= dots_to_dashes(v@.subrange(j + 1, k as int)).push(
            if c == '.' { '-' } else { c },
        ));
        k += 1;
    }
    proof {
        let rest = v@.skip(i + 1);
        let organization = take_until(rest, '.');
        assert(rest.skip(organization.len() as int + 1) =~= v@.subrange(j + 1, v@.len() as int));
    }
    if app.len() == 0 {
        return None;
    }
    Some((string_of(&v, 0, i), string_of(&v, i + 1, j), string_of(&app, 0, app.len())))
}

/// The frontend a WebView loads: a URL, or a zip of the built frontend
/// served under a custom scheme.
#[derive(Debug, Clone, Copy)]
pub enum WxpFrontendSource {
    Url { url: &'static str },
    Zip { scheme: &'static str, url: &'static str, bytes: &'static [u8] },
}

impl WxpFrontendSource {
    /// The URL the WebView opens first.
    pub fn start_url(&self) -> (r: &'static str)
        ensures
            r == match *self {
                WxpFrontendSource::Url { url } => url,
                WxpFrontendSource::Zip { url, .. } => url,
            },
    {
        match self {
            WxpFrontendSource::Url { url } => url,
            WxpFrontendSource::Zip { url, .. } => url,
        }
    }
}

} // verus!
