//! WRAC production-readiness checks: rules on the parameters a built CLAP
//! exposes and on the metadata of its bundle, each reported as passed,
//! failed with its violations, skipped, or disabled with a reason.
//!
//! The parameter schema is read from the built plugin and the bundle's
//! `Info.plist` from disk at the program edge; both arrive here as plain
//! values. Floating-point parameter ranges arrive as the comparisons the
//! rules make and as the text they print.
use vstd::prelude::*;
use crate::metadata::{PluginMetadata, ValidationMetadata};
use crate::targets::{Platform, ValidateTarget};
use crate::text::{decimal, owned, push_decimal, push_str, str_eq};

verus! {

/// `CLAP_PARAM_IS_STEPPED` of `clap-sys`: `1 << 0`.
#[verifier::external_body]
fn param_is_stepped() -> (r: u32)
    ensures
        r == 1u32,
{
    clap_sys::ext::params::CLAP_PARAM_IS_STEPPED
}

/// `CLAP_PARAM_IS_HIDDEN` of `clap-sys`: `1 << 2`.
#[verifier::external_body]
fn param_is_hidden() -> (r: u32)
    ensures
        r == 4u32,
{
    clap_sys::ext::params::CLAP_PARAM_IS_HIDDEN
}

/// `CLAP_PARAM_IS_READONLY` of `clap-sys`: `1 << 3`.
#[verifier::external_body]
fn param_is_readonly() -> (r: u32)
    ensures
        r == 8u32,
{
    clap_sys::ext::params::CLAP_PARAM_IS_READONLY
}

/// `CLAP_PARAM_IS_BYPASS` of `clap-sys`: `1 << 4`.
#[verifier::external_body]
fn param_is_bypass() -> (r: u32)
    ensures
        r == 16u32,
{
    clap_sys::ext::params::CLAP_PARAM_IS_BYPASS
}

/// `CLAP_PARAM_IS_ENUM` of `clap-sys`: `1 << 16`.
#[verifier::external_body]
fn param_is_enum() -> (r: u32)
    ensures
        r == 65536u32,
{
    clap_sys::ext::params::CLAP_PARAM_IS_ENUM
}

/// One parameter as the built plugin reports it.
#[derive(Debug, Clone)]
pub struct ParameterSchema {
    pub id: u32,
    pub name: String,
    pub flags: u32,
    /// The minimum is 0 (within `f64::EPSILON`).
    pub min_is_zero: bool,
    /// The maximum is 1 (within `f64::EPSILON`).
    pub max_is_one: bool,
    /// The default is 0 or 1 (within `f64::EPSILON`).
    pub default_is_boolean: bool,
    /// The minimum as `Display` prints it.
    pub min_text: String,
    /// The maximum as `Display` prints it.
    pub max_text: String,
    /// The default as `Display` prints it.
    pub default_text: String,
}

/// The descriptor and parameters of a built plugin.
#[derive(Debug, Clone)]
pub struct PluginSchema {
    pub plugin_id: String,
    pub plugin_name: String,
    pub plugin_vendor: String,
    pub plugin_version: String,
    pub params: Vec<ParameterSchema>,
}

/// One breach of a rule.
#[derive(Debug, Clone)]
pub struct RuleViolation {
    pub plugin_id: String,
    pub plugin_name: String,
    pub location: String,
    pub rule_id: &'static str,
    pub message: String,
    pub fix: &'static str,
}

/// The outcome of one rule.
#[derive(Debug, Clone)]
pub enum CheckStatus {
    Passed,
    Failed(Vec<RuleViolation>),
    Skipped(&'static str),
    Disabled(String),
}

/// The outcome of one rule for one plugin.
#[derive(Debug, Clone)]
pub struct CheckResult {
    pub plugin_id: String,
    pub plugin_name: String,
    pub rule_id: &'static str,
    pub status: CheckStatus,
}

/// A value of a bundle's `Info.plist`.
#[derive(Debug, Clone)]
pub enum PlistValue {
    Text(String),
    Flag(bool),
    Other,
}

/// One key of a bundle's `Info.plist`.
#[derive(Debug, Clone)]
pub struct PlistEntry {
    pub key: String,
    pub value: PlistValue,
}

/// A bundle's `Info.plist` as it was read.
#[derive(Debug, Clone)]
pub enum PlistDocument {
    /// Reading or parsing failed with this error text.
    Unreadable(String),
    /// The top-level value is not a dictionary.
    NotDictionary,
    /// The top-level dictionary.
    Dictionary(Vec<PlistEntry>),
}

/// A plist value as text.
pub enum PlistValueView {
    Text(Seq<char>),
    Flag(bool),
    Other,
}

/// A bundle's `Info.plist` as text: the error, no dictionary, or the
/// dictionary's (key, value) entries in order.
pub enum PlistDocumentView {
    Unreadable(Seq<char>),
    NotDictionary,
    Dictionary(Seq<(Seq<char>, PlistValueView)>),
}

impl View for PlistValue {
    type V = PlistValueView;

    open spec fn view(&self) -> PlistValueView {
        match self {
            PlistValue::Text(s) => PlistValueView::Text(s@),
            PlistValue::Flag(b) => PlistValueView::Flag(*b),
            PlistValue::Other => PlistValueView::Other,
        }
    }
}

impl View for PlistEntry {
    type V = (Seq<char>, PlistValueView);

    open spec fn view(&self) -> (Seq<char>, PlistValueView) {
        (self.key@, self.value@)
    }
}

/// The views of a dictionary's entries.
pub open spec fn entry_views(v: Seq<PlistEntry>) -> Seq<(Seq<char>, PlistValueView)> {
    v.map_values(|e: PlistEntry| e@)
}

impl View for PlistDocument {
    type V = PlistDocumentView;

    open spec fn view(&self) -> PlistDocumentView {
        match self {
            PlistDocument::Unreadable(e) => PlistDocumentView::Unreadable(e@),
            PlistDocument::NotDictionary => PlistDocumentView::NotDictionary,
            PlistDocument::Dictionary(entries) => PlistDocumentView::Dictionary(entry_views(entries@)),
        }
    }
}

/// A violation as text.
pub struct ViolationView {
    pub plugin_id: Seq<char>,
    pub plugin_name: Seq<char>,
    pub location: Seq<char>,
    pub rule_id: Seq<char>,
    pub message: Seq<char>,
    pub fix: Seq<char>,
}

/// A check status as text.
pub enum StatusView {
    Passed,
    Failed(Seq<ViolationView>),
    Skipped(Seq<char>),
    Disabled(Seq<char>),
}

/// A check result as text.
pub struct ResultView {
    pub plugin_id: Seq<char>,
    pub plugin_name: Seq<char>,
    pub rule_id: Seq<char>,
    pub status: StatusView,
}

impl View for RuleViolation {
    type V = ViolationView;

    open spec fn view(&self) -> ViolationView {
        ViolationView {
            plugin_id: self.plugin_id@,
            plugin_name: self.plugin_name@,
            location: self.location@,
            rule_id: self.rule_id@,
            message: self.message@,
            fix: self.fix@,
        }
    }
}

/// The views of a list of violations.
pub open spec fn violation_views(v: Seq<RuleViolation>) -> Seq<ViolationView> {
    v.map_values(|x: RuleViolation| x@)
}

impl View for CheckStatus {
    type V = StatusView;

    open spec fn view(&self) -> StatusView {
        match self {
            CheckStatus::Passed => StatusView::Passed,
            CheckStatus::Failed(v) => StatusView::Failed(violation_views(v@)),
            CheckStatus::Skipped(s) => StatusView::Skipped(s@),
            CheckStatus::Disabled(s) => StatusView::Disabled(s@),
        }
    }
}

impl View for CheckResult {
    type V = ResultView;

    open spec fn view(&self) -> ResultView {
        ResultView {
            plugin_id: self.plugin_id@,
            plugin_name: self.plugin_name@,
            rule_id: self.rule_id@,
            status: self.status@,
        }
    }
}

/// The views of a list of results.
pub open spec fn result_views(v: Seq<CheckResult>) -> Seq<ResultView> {
    v.map_values(|x: CheckResult| x@)
}

pub open spec fn rule_single_knob() -> Seq<char> {
    "fender-studio-pro-generic-editor-single-knob"@
}

pub open spec fn rule_param_id_index() -> Seq<char> {
    "luna-vst3-param-id-must-match-index"@
}

pub open spec fn rule_bypass_shape() -> Seq<char> {
    "bypass-param-shape"@
}

pub open spec fn rule_requires_bypass() -> Seq<char> {
    "plugin-requires-bypass"@
}

pub open spec fn rule_descriptors() -> Seq<char> {
    "clap-descriptors-match-manifest"@
}

pub open spec fn rule_info_plist() -> Seq<char> {
    "macos-clap-info-plist-matches-manifest"@
}

/// The rules this module knows, in report order.
pub open spec fn known_rules() -> Seq<Seq<char>> {
    seq![
        rule_single_knob(),
        rule_param_id_index(),
        rule_bypass_shape(),
        rule_requires_bypass(),
        rule_descriptors(),
        rule_info_plist(),
    ]
}

/// Whether a flag bit is set.
pub open spec fn has_flag(flags: u32, flag: u32) -> bool {
    flags & flag != 0u32
}

pub open spec fn is_bypass(p: ParameterSchema) -> bool {
    has_flag(p.flags, 16u32)
}

/// A parameter that a generic editor shows as a knob: neither hidden, nor
/// read-only, nor the bypass.
pub open spec fn is_visible_knob(p: ParameterSchema) -> bool {
    !has_flag(p.flags, 4u32) && !has_flag(p.flags, 8u32) && !has_flag(p.flags, 16u32)
}

pub open spec fn knob_count(ps: Seq<ParameterSchema>) -> nat
    decreases ps.len(),
{
    if ps.len() == 0 {
        0
    } else {
        knob_count(ps.drop_last()) + if is_visible_knob(ps.last()) { 1nat } else { 0nat }
    }
}

pub open spec fn bypass_count(ps: Seq<ParameterSchema>) -> nat
    decreases ps.len(),
{
    if ps.len() == 0 {
        0
    } else {
        bypass_count(ps.drop_last()) + if is_bypass(ps.last()) { 1nat } else { 0nat }
    }
}

pub open spec fn bool_text(b: bool) -> Seq<char> {
    if b {
        "true"@
    } else {
        "false"@
    }
}

/// A violation of `rule` by the plugin of `schema`.
pub open spec fn violation(
    schema: PluginSchema,
    location: Seq<char>,
    rule: Seq<char>,
    message: Seq<char>,
    fix: Seq<char>,
) -> ViolationView {
    ViolationView {
        plugin_id: schema.plugin_id@,
        plugin_name: schema.plugin_name@,
        location,
        rule_id: rule,
        message,
        fix,
    }
}

pub open spec fn status_of(vs: Seq<ViolationView>) -> StatusView {
    if vs.len() == 0 {
        StatusView::Passed
    } else {
        StatusView::Failed(vs)
    }
}

pub open spec fn single_knob_message(count: nat) -> Seq<char> {
    "Fender Studio Pro generic editors fail to render knobs when exactly one visible non-bypass parameter is exposed. visible_non_bypass_parameter_count="@
        + decimal(count)
}

pub open spec fn single_knob_status(schema: PluginSchema, targets: Seq<ValidateTarget>, location: Seq<char>) -> StatusView {
    if targets.contains(ValidateTarget::Clap) || targets.contains(ValidateTarget::Vst3) {
        let n = knob_count(schema.params@);
        status_of(
            if n == 1 {
                seq![
                    violation(
                        schema,
                        location,
                        rule_single_knob(),
                        single_knob_message(n),
                        "Expose zero or at least two visible non-bypass parameters, or disable this rule with a documented reason."@,
                    ),
                ]
            } else {
                Seq::empty()
            },
        )
    } else {
        StatusView::Skipped("CLAP or VST3 validation was not requested."@)
    }
}

pub open spec fn param_id_message(index: nat, p: ParameterSchema) -> Seq<char> {
    "LUNA 2.0.3.4381 VST3 automation writes fail when ParamID differs from parameter index. index="@
        + decimal(index) + " id="@ + decimal(p.id as nat) + " name=\""@ + p.name@ + "\""@
}

/// One violation per parameter whose id differs from its index.
pub open spec fn param_id_violations(schema: PluginSchema, location: Seq<char>, ps: Seq<ParameterSchema>) -> Seq<
    ViolationView,
>
    decreases ps.len(),
{
    if ps.len() == 0 {
        Seq::empty()
    } else {
        let i = (ps.len() - 1) as nat;
        let rest = param_id_violations(schema, location, ps.drop_last());
        if ps.last().id as nat != i {
            rest.push(
                violation(
                    schema,
                    location,
                    rule_param_id_index(),
                    param_id_message(i, ps.last()),
                    "Keep public VST3 parameter IDs equal to their parameter-list indices."@,
                ),
            )
        } else {
            rest
        }
    }
}

pub open spec fn param_id_status(schema: PluginSchema, targets: Seq<ValidateTarget>, location: Seq<char>) -> StatusView {
    if targets.contains(ValidateTarget::Vst3) {
        status_of(param_id_violations(schema, location, schema.params@))
    } else {
        StatusView::Skipped("VST3 validation was not requested."@)
    }
}

/// A bypass parameter of the wrong shape: it must be a stepped enum over
/// 0..1 with a boolean default.
pub open spec fn bad_bypass_shape(p: ParameterSchema) -> bool {
    !has_flag(p.flags, 1u32) || !has_flag(p.flags, 65536u32) || !p.min_is_zero || !p.max_is_one
        || !p.default_is_boolean
}

pub open spec fn bypass_shape_message(p: ParameterSchema) -> Seq<char> {
    "Bypass parameter must be a stepped enum with range 0..1 and a boolean default. id="@ + decimal(
        p.id as nat,
    ) + " name=\""@ + p.name@ + "\" stepped="@ + bool_text(has_flag(p.flags, 1u32)) + " enum="@ + bool_text(
        has_flag(p.flags, 65536u32),
    ) + " min="@ + p.min_text@ + " max="@ + p.max_text@ + " default="@ + p.default_text@
}

/// One violation per bypass parameter of the wrong shape, in order.
pub open spec fn bypass_shape_violations(schema: PluginSchema, location: Seq<char>, ps: Seq<ParameterSchema>) -> Seq<
    ViolationView,
>
    decreases ps.len(),
{
    if ps.len() == 0 {
        Seq::empty()
    } else {
        let rest = bypass_shape_violations(schema, location, ps.drop_last());
        let p = ps.last();
        if is_bypass(p) && bad_bypass_shape(p) {
            rest.push(
                violation(
                    schema,
                    location,
                    rule_bypass_shape(),
                    bypass_shape_message(p),
                    "Set bypass flags to stepped + enum + bypass, min=0, max=1, and default=0 or 1."@,
                ),
            )
        } else {
            rest
        }
    }
}

pub open spec fn bypass_count_message(n: nat) -> Seq<char> {
    "Only one bypass parameter may be exposed. bypass_parameter_count="@ + decimal(n)
}

pub open spec fn bypass_status(schema: PluginSchema, location: Seq<char>) -> StatusView {
    let n = bypass_count(schema.params@);
    let first = if n > 1 {
        seq![
            violation(
                schema,
                location,
                rule_bypass_shape(),
                bypass_count_message(n),
                "Expose a single host bypass parameter."@,
            ),
        ]
    } else {
        Seq::empty()
    };
    status_of(first + bypass_shape_violations(schema, location, schema.params@))
}

pub open spec fn requires_bypass_status(schema: PluginSchema, location: Seq<char>) -> StatusView {
    status_of(
        if bypass_count(schema.params@) == 0 {
            seq![
                violation(
                    schema,
                    location,
                    rule_requires_bypass(),
                    "Production plugins should expose a host bypass parameter."@,
                    "Add one bypass parameter, or disable this rule with a documented reason."@,
                ),
            ]
        } else {
            Seq::empty()
        },
    )
}

/// The reason a rule was turned off: that of its first entry.
pub open spec fn disabled_reason(validation: ValidationMetadata, rule: Seq<char>) -> Option<Seq<char>> {
    first_disabled(validation.disabled_rules@, rule)
}

pub open spec fn first_disabled(rules: Seq<crate::metadata::DisabledValidationRule>, rule: Seq<char>) -> Option<
    Seq<char>,
>
    decreases rules.len(),
{
    if rules.len() == 0 {
        None
    } else if rules[0].rule_id@ == rule {
        Some(rules[0].reason@)
    } else {
        first_disabled(rules.drop_first(), rule)
    }
}

/// The reported result of a rule: a turned-off rule is reported as disabled
/// with its reason, whatever its evaluation gave.
pub open spec fn reported(
    plugin_id: Seq<char>,
    plugin_name: Seq<char>,
    validation: ValidationMetadata,
    rule: Seq<char>,
    status: StatusView,
) -> ResultView {
    ResultView {
        plugin_id,
        plugin_name,
        rule_id: rule,
        status: match disabled_reason(validation, rule) {
            Some(reason) => StatusView::Disabled(reason),
            None => status,
        },
    }
}

/// The results of the parameter rules for one plugin, in order.
pub open spec fn parameter_checks(
    schema: PluginSchema,
    targets: Seq<ValidateTarget>,
    validation: ValidationMetadata,
    location: Seq<char>,
) -> Seq<ResultView> {
    let id = schema.plugin_id@;
    let name = schema.plugin_name@;
    seq![
        reported(id, name, validation, rule_single_knob(), single_knob_status(schema, targets, location)),
        reported(id, name, validation, rule_param_id_index(), param_id_status(schema, targets, location)),
        reported(id, name, validation, rule_bypass_shape(), bypass_status(schema, location)),
        reported(id, name, validation, rule_requires_bypass(), requires_bypass_status(schema, location)),
    ]
}

fn flag_set(flags: u32, flag: u32) -> (r: bool)
    ensures
        r == has_flag(flags, flag),
{
    flags & flag != 0
}

fn knob_and_bypass_counts(params: &Vec<ParameterSchema>) -> (r: (usize, usize))
    ensures
        r.0 == knob_count(params@),
        r.1 == bypass_count(params@),
{
    let hidden = param_is_hidden();
    let readonly = param_is_readonly();
    let bypass = param_is_bypass();
    let mut knobs: usize = 0;
    let mut bypasses: usize = 0;
    let mut i: usize = 0;
    while i < params.len()
        invariant
            hidden == 4u32,
            readonly == 8u32,
            bypass == 16u32,
            i <= params.len(),
            knobs == knob_count(params@.take(i as int)),
            bypasses == bypass_count(params@.take(i as int)),
            knobs <= i,
            bypasses <= i,
        decreases params.len() - i,
    {
        proof {
            assert(params@.take(i + 1).drop_last() =~= params@.take(i as int));
        }
        let f = params[i].flags;
        let is_bypass_param = flag_set(f, bypass);
        if !flag_set(f, hidden) && !flag_set(f, readonly) && !is_bypass_param {
            knobs = knobs + 1;
        }
        if is_bypass_param {
            bypasses = bypasses + 1;
        }
        i += 1;
    }
    assert(params@.take(params.len() as int) =~= params@);
    (knobs, bypasses)
}

fn new_violation(
    schema: &PluginSchema,
    location: &str,
    rule_id: &'static str,
    message: String,
    fix: &'static str,
) -> (r: RuleViolation)
    ensures
        r@ == violation(*schema, location@, rule_id@, message@, fix@),
{
    RuleViolation {
        plugin_id: schema.plugin_id.clone(),
        plugin_name: schema.plugin_name.clone(),
        location: owned(location),
        rule_id,
        message,
        fix,
    }
}

fn status_from(violations: Vec<RuleViolation>) -> (r: CheckStatus)
    ensures
        r@ == status_of(violation_views(violations@)),
{
    if violations.len() == 0 {
        CheckStatus::Passed
    } else {
        CheckStatus::Failed(violations)
    }
}

fn push_violation(v: &mut Vec<RuleViolation>, x: RuleViolation)
    ensures
        violation_views(final(v)@) == violation_views(old(v)@).push(x@),
{
    v.push(x);
    assert(violation_views(v@) =~= violation_views(old(v)@).push(x@));
}

fn contains_target(targets: &[ValidateTarget], t: ValidateTarget) -> (r: bool)
    ensures
        r == targets@.contains(t),
{
    let mut i: usize = 0;
    while i < targets.len()
        invariant
            i <= targets@.len(),
            forall|j: int| 0 <= j < i ==> targets@[j] != t,
        decreases targets.len() - i,
    {
        if targets[i] == t {
            return true;
        }
        i += 1;
    }
    false
}

/// The reason a rule was turned off, if it was.
pub fn disabled_rule_reason(validation: &ValidationMetadata, rule_id: &str) -> (r: Option<String>)
    ensures
        r matches Some(s) ==> disabled_reason(*validation, rule_id@) == Some(s@),
        r is None ==> disabled_reason(*validation, rule_id@) is None,
{
    let rules = &validation.disabled_rules;
    let mut i: usize = 0;
    assert(rules@.skip(0) =~= rules@);
    while i < rules.len()
        invariant
            rules == &validation.disabled_rules,
            i <= rules@.len(),
            first_disabled(rules@, rule_id@) == first_disabled(rules@.skip(i as int), rule_id@),
        decreases rules.len() - i,
    {
        assert(rules@.skip(i as int).drop_first() =~= rules@.skip(i + 1));
        assert(rules@.skip(i as int)[0] == rules@[i as int]);
        if str_eq(rules[i].rule_id.as_str(), rule_id) {
            let reason = rules[i].reason.clone();
            assert(first_disabled(rules@.skip(i as int), rule_id@) == Some(reason@));
            assert(disabled_reason(*validation, rule_id@) == Some(reason@));
            return Some(reason);
        }
        i += 1;
    }
    None
}

fn report(
    results: &mut Vec<CheckResult>,
    validation: &ValidationMetadata,
    plugin_id: &String,
    plugin_name: &String,
    rule_id: &'static str,
    status: CheckStatus,
)
    ensures
        result_views(final(results)@) == result_views(old(results)@).push(
            reported(plugin_id@, plugin_name@, *validation, rule_id@, status@),
        ),
{
    let status = match disabled_rule_reason(validation, rule_id) {
        Some(reason) => CheckStatus::Disabled(reason),
        None => status,
    };
    let r = CheckResult { plugin_id: plugin_id.clone(), plugin_name: plugin_name.clone(), rule_id, status };
    results.push(r);
    assert(result_views(results@) =~= result_views(old(results)@).push(r@));
}

fn param_id_check(schema: &PluginSchema, location: &str) -> (r: Vec<RuleViolation>)
    ensures
        violation_views(r@) == param_id_violations(*schema, location@, schema.params@),
{
    let mut out: Vec<RuleViolation> = Vec::new();
    let mut i: usize = 0;
    while i < schema.params.len()
        invariant
            i <= schema.params@.len(),
            violation_views(out@) == param_id_violations(*schema, location@, schema.params@.take(i as int)),
        decreases schema.params.len() - i,
    {
        let p = &schema.params[i];
        proof {
            assert(schema.params@.take(i + 1).drop_last() =~= schema.params@.take(i as int));
        }
        if p.id as usize != i {
            let mut msg = owned(
                "LUNA 2.0.3.4381 VST3 automation writes fail when ParamID differs from parameter index. index=",
            );
            push_decimal(&mut msg, i);
            push_str(&mut msg, " id=");
            push_decimal(&mut msg, p.id as usize);
            push_str(&mut msg, " name=\"");
            push_str(&mut msg, p.name.as_str());
            push_str(&mut msg, "\"");
            let v = new_violation(
                schema,
                location,
                "luna-vst3-param-id-must-match-index",
                msg,
                "Keep public VST3 parameter IDs equal to their parameter-list indices.",
            );
            push_violation(&mut out, v);
        }
        i += 1;
    }
    assert(schema.params@.take(schema.params@.len() as int) =~= schema.params@);
    out
}

fn push_bool(s: &mut String, b: bool)
    ensures
        final(s)@ == old(s)@ + bool_text(b),
{
    if b {
        push_str(s, "true");
    } else {
        push_str(s, "false");
    }
}

fn bypass_check(schema: &PluginSchema, location: &str, bypasses: usize) -> (r: Vec<RuleViolation>)
    requires
        bypasses == bypass_count(schema.params@),
    ensures
        status_of(violation_views(r@)) == bypass_status(*schema, location@),
{
    let stepped = param_is_stepped();
    let enum_flag = param_is_enum();
    let bypass = param_is_bypass();
    let mut out: Vec<RuleViolation> = Vec::new();
    if bypasses > 1 {
        let mut msg = owned("Only one bypass parameter may be exposed. bypass_parameter_count=");
        push_decimal(&mut msg, bypasses);
        let v = new_violation(schema, location, "bypass-param-shape", msg, "Expose a single host bypass parameter.");
        push_violation(&mut out, v);
    }
    let ghost first = violation_views(out@);
    assert(first =~= (if bypass_count(schema.params@) > 1 {
        seq![
            violation(
                *schema,
                location@,
                rule_bypass_shape(),
                bypass_count_message(bypass_count(schema.params@)),
                "Expose a single host bypass parameter."@,
            ),
        ]
    } else {
        Seq::<ViolationView>::empty()
    }));
    assert(schema.params@.take(0) =~= Seq::<ParameterSchema>::empty());
    assert(first + Seq::<ViolationView>::empty() =~= first);
    let mut i: usize = 0;
    while i < schema.params.len()
        invariant
            stepped == 1u32,
            enum_flag == 65536u32,
            bypass == 16u32,
            i <= schema.params@.len(),
            violation_views(out@) == first + bypass_shape_violations(*schema, location@, schema.params@.take(i as int)),
        decreases schema.params.len() - i,
    {
        let p = &schema.params[i];
        proof {
            assert(schema.params@.take(i + 1).drop_last() =~= schema.params@.take(i as int));
        }
        let is_step = flag_set(p.flags, stepped);
        let is_enum = flag_set(p.flags, enum_flag);
        if flag_set(p.flags, bypass) && (!is_step || !is_enum || !p.min_is_zero || !p.max_is_one
            || !p.default_is_boolean) {
            let mut msg = owned(
                "Bypass parameter must be a stepped enum with range 0..1 and a boolean default. id=",
            );
            push_decimal(&mut msg, p.id as usize);
            push_str(&mut msg, " name=\"");
            push_str(&mut msg, p.name.as_str());
            push_str(&mut msg, "\" stepped=");
            push_bool(&mut msg, is_step);
            push_str(&mut msg, " enum=");
            push_bool(&mut msg, is_enum);
            push_str(&mut msg, " min=");
            push_str(&mut msg, p.min_text.as_str());
            push_str(&mut msg, " max=");
            push_str(&mut msg, p.max_text.as_str());
            push_str(&mut msg, " default=");
            push_str(&mut msg, p.default_text.as_str());
            let v = new_violation(
                schema,
                location,
                "bypass-param-shape",
                msg,
                "Set bypass flags to stepped + enum + bypass, min=0, max=1, and default=0 or 1.",
            );
            let ghost before = violation_views(out@);
            push_violation(&mut out, v);
            proof {
                assert(first + bypass_shape_violations(*schema, location@, schema.params@.take(i + 1)) =~= before.push(
                    v@,
                ));
            }
        }
        i += 1;
    }
    assert(schema.params@.take(schema.params@.len() as int) =~= schema.params@);
    out
}

/// Evaluates the parameter rules for one plugin: one result per rule, in
/// rule order, each passed, failed with its violations, skipped when no
/// requested target makes it relevant, or disabled with the package's reason.
pub fn evaluate_checks(
    schema: &PluginSchema,
    targets: &[ValidateTarget],
    validation: &ValidationMetadata,
    location: &str,
) -> (r: Vec<CheckResult>)
    ensures
        result_views(r@) == parameter_checks(*schema, targets@, *validation, location@),
{
    let (knobs, bypasses) = knob_and_bypass_counts(&schema.params);
    let mut results: Vec<CheckResult> = Vec::new();
    let id = &schema.plugin_id;
    let name = &schema.plugin_name;

    let knob_status = if contains_target(targets, ValidateTarget::Clap) || contains_target(
        targets,
        ValidateTarget::Vst3,
    ) {
        let mut vs: Vec<RuleViolation> = Vec::new();
        if knobs == 1 {
            let mut msg = owned(
                "Fender Studio Pro generic editors fail to render knobs when exactly one visible non-bypass parameter is exposed. visible_non_bypass_parameter_count=",
            );
            push_decimal(&mut msg, knobs);
            let v = new_violation(
                schema,
                location,
                "fender-studio-pro-generic-editor-single-knob",
                msg,
                "Expose zero or at least two visible non-bypass parameters, or disable this rule with a documented reason.",
            );
            push_violation(&mut vs, v);
        }
        assert(violation_views(vs@) =~= (if knobs == 1 {
            seq![
                violation(
                    *schema,
                    location@,
                    rule_single_knob(),
                    single_knob_message(knobs as nat),
                    "Expose zero or at least two visible non-bypass parameters, or disable this rule with a documented reason."@,
                ),
            ]
        } else {
            Seq::<ViolationView>::empty()
        }));
        status_from(vs)
    } else {
        CheckStatus::Skipped("CLAP or VST3 validation was not requested.")
    };
    report(&mut results, validation, id, name, "fender-studio-pro-generic-editor-single-knob", knob_status);

    let id_status = if contains_target(targets, ValidateTarget::Vst3) {
        status_from(param_id_check(schema, location))
    } else {
        CheckStatus::Skipped("VST3 validation was not requested.")
    };
    report(&mut results, validation, id, name, "luna-vst3-param-id-must-match-index", id_status);

    let shape = bypass_check(schema, location, bypasses);
    report(&mut results, validation, id, name, "bypass-param-shape", status_from(shape));

    let mut required: Vec<RuleViolation> = Vec::new();
    if bypasses == 0 {
        let v = new_violation(
            schema,
            location,
            "plugin-requires-bypass",
            owned("Production plugins should expose a host bypass parameter."),
            "Add one bypass parameter, or disable this rule with a documented reason.",
        );
        push_violation(&mut required, v);
    }
    assert(violation_views(required@) =~= (if bypasses == 0 {
        seq![
            violation(
                *schema,
                location@,
                rule_requires_bypass(),
                "Production plugins should expose a host bypass parameter."@,
                "Add one bypass parameter, or disable this rule with a documented reason."@,
            ),
        ]
    } else {
        Seq::<ViolationView>::empty()
    }));
    report(&mut results, validation, id, name, "plugin-requires-bypass", status_from(required));
    assert(result_views(results@) =~= parameter_checks(*schema, targets@, *validation, location@));
    results
}


/// The first rule id that this module does not know, in list order.
pub open spec fn first_unknown_rule(rules: Seq<crate::metadata::DisabledValidationRule>) -> Option<Seq<char>>
    decreases rules.len(),
{
    if rules.len() == 0 {
        None
    } else if !known_rules().contains(rules[0].rule_id@) {
        Some(rules[0].rule_id@)
    } else {
        first_unknown_rule(rules.drop_first())
    }
}

fn is_known_rule(rule_id: &str) -> (r: bool)
    ensures
        r == known_rules().contains(rule_id@),
{
    let r = str_eq(rule_id, "fender-studio-pro-generic-editor-single-knob") || str_eq(
        rule_id,
        "luna-vst3-param-id-must-match-index",
    ) || str_eq(rule_id, "bypass-param-shape") || str_eq(rule_id, "plugin-requires-bypass") || str_eq(
        rule_id,
        "clap-descriptors-match-manifest",
    ) || str_eq(rule_id, "macos-clap-info-plist-matches-manifest");
    proof {
        let k = known_rules();
        if r {
            if rule_id@ == rule_single_knob() {
                assert(k[0] == rule_id@);
            } else if rule_id@ == rule_param_id_index() {
                assert(k[1] == rule_id@);
            } else if rule_id@ == rule_bypass_shape() {
                assert(k[2] == rule_id@);
            } else if rule_id@ == rule_requires_bypass() {
                assert(k[3] == rule_id@);
            } else if rule_id@ == rule_descriptors() {
                assert(k[4] == rule_id@);
            } else {
                assert(k[5] == rule_id@);
            }
        }
    }
    r
}

/// Every turned-off rule must be one this module knows; the error names the
/// first that is not.
pub fn validate_disabled_rules(validation: &ValidationMetadata) -> (r: Result<(), String>)
    ensures
        first_unknown_rule(validation.disabled_rules@) is None ==> r is Ok,
        first_unknown_rule(validation.disabled_rules@) matches Some(id) ==> (r matches Err(e) && e@
            == "unknown WRAC production-readiness rule in disabled_rules: "@ + id),
{
    let rules = &validation.disabled_rules;
    let mut i: usize = 0;
    assert(rules@.skip(0) =~= rules@);
    while i < rules.len()
        invariant
            rules == &validation.disabled_rules,
            i <= rules@.len(),
            first_unknown_rule(rules@) == first_unknown_rule(rules@.skip(i as int)),
        decreases rules.len() - i,
    {
        assert(rules@.skip(i as int).drop_first() =~= rules@.skip(i + 1));
        assert(rules@.skip(i as int)[0] == rules@[i as int]);
        if !is_known_rule(rules[i].rule_id.as_str()) {
            let mut msg = owned("unknown WRAC production-readiness rule in disabled_rules: ");
            push_str(&mut msg, rules[i].rule_id.as_str());
            return Err(msg);
        }
        i += 1;
    }
    Ok(())
}

/// A violation charged to the bundle as a whole.
pub open spec fn bundle_violation(
    metadata: PluginMetadata,
    location: Seq<char>,
    rule: Seq<char>,
    message: Seq<char>,
    fix: Seq<char>,
) -> ViolationView {
    ViolationView {
        plugin_id: metadata.plugins@[0].plugin_id@,
        plugin_name: metadata.bundle_name@,
        location,
        rule_id: rule,
        message,
        fix,
    }
}

pub open spec fn descriptor_message(index: nat, field: Seq<char>, expected: Seq<char>, actual: Seq<char>) -> Seq<char> {
    "CLAP descriptor "@ + field + " does not match manifest metadata. index="@ + decimal(index) + " expected=\""@
        + expected + "\" actual=\""@ + actual + "\""@
}

pub open spec fn descriptor_violation(
    schema: PluginSchema,
    location: Seq<char>,
    index: nat,
    field: Seq<char>,
    expected: Seq<char>,
    actual: Seq<char>,
) -> ViolationView {
    violation(
        schema,
        location,
        rule_descriptors(),
        descriptor_message(index, field, expected, actual),
        "Keep CLAP descriptors generated from package.metadata.wrac instead of hard-coded product metadata."@,
    )
}

/// The mismatches between descriptor `index` and manifest product `index`:
/// id, name, vendor and version, in that order.
pub open spec fn entry_violations(
    schema: PluginSchema,
    metadata: PluginMetadata,
    location: Seq<char>,
    index: nat,
) -> Seq<ViolationView> {
    let expected = metadata.plugins@[index as int];
    let a = if schema.plugin_id@ != expected.plugin_id@ {
        seq![descriptor_violation(schema, location, index, "id"@, expected.plugin_id@, schema.plugin_id@)]
    } else {
        Seq::empty()
    };
    let b = if schema.plugin_name@ != expected.plugin_name@ {
        seq![descriptor_violation(schema, location, index, "name"@, expected.plugin_name@, schema.plugin_name@)]
    } else {
        Seq::empty()
    };
    let c = if schema.plugin_vendor@ != metadata.company_name@ {
        seq![descriptor_violation(schema, location, index, "vendor"@, metadata.company_name@, schema.plugin_vendor@)]
    } else {
        Seq::empty()
    };
    let d = if schema.plugin_version@ != metadata.version@ {
        seq![descriptor_violation(schema, location, index, "version"@, metadata.version@, schema.plugin_version@)]
    } else {
        Seq::empty()
    };
    a + b + c + d
}

/// The mismatches of the first `k` products that have a descriptor.
pub open spec fn entries_violations(
    schemas: Seq<PluginSchema>,
    metadata: PluginMetadata,
    location: Seq<char>,
    k: nat,
) -> Seq<ViolationView>
    decreases k,
{
    if k == 0 {
        Seq::empty()
    } else {
        let rest = entries_violations(schemas, metadata, location, (k - 1) as nat);
        if k - 1 < schemas.len() {
            rest + entry_violations(schemas[k - 1], metadata, location, (k - 1) as nat)
        } else {
            rest
        }
    }
}

pub open spec fn descriptor_count_message(d: nat, m: nat) -> Seq<char> {
    "CLAP descriptor count must match package.metadata.wrac.plugins. descriptor_count="@ + decimal(d)
        + " manifest_count="@ + decimal(m)
}

/// The mismatches between the built descriptors and the manifest products:
/// a differing count first, then each product against the descriptor at its index.
pub open spec fn descriptor_violations(schemas: Seq<PluginSchema>, metadata: PluginMetadata, location: Seq<char>) -> Seq<
    ViolationView,
> {
    let n = metadata.plugins@.len();
    let head = if schemas.len() != n {
        seq![
            bundle_violation(
                metadata,
                location,
                rule_descriptors(),
                descriptor_count_message(schemas.len(), n),
                "Expose one CLAP descriptor for each package.metadata.wrac.plugins entry, in the same order."@,
            ),
        ]
    } else {
        Seq::empty()
    };
    head + entries_violations(schemas, metadata, location, n)
}

fn descriptor_mismatch(
    schema: &PluginSchema,
    location: &str,
    index: usize,
    field: &str,
    expected: &str,
    actual: &str,
) -> (r: RuleViolation)
    ensures
        r@ == descriptor_violation(*schema, location@, index as nat, field@, expected@, actual@),
{
    let mut msg = owned("CLAP descriptor ");
    push_str(&mut msg, field);
    push_str(&mut msg, " does not match manifest metadata. index=");
    push_decimal(&mut msg, index);
    push_str(&mut msg, " expected=\"");
    push_str(&mut msg, expected);
    push_str(&mut msg, "\" actual=\"");
    push_str(&mut msg, actual);
    push_str(&mut msg, "\"");
    new_violation(
        schema,
        location,
        "clap-descriptors-match-manifest",
        msg,
        "Keep CLAP descriptors generated from package.metadata.wrac instead of hard-coded product metadata.",
    )
}

fn entry_mismatches(
    out: &mut Vec<RuleViolation>,
    schema: &PluginSchema,
    metadata: &PluginMetadata,
    location: &str,
    index: usize,
)
    requires
        index < metadata.plugins@.len(),
    ensures
        violation_views(final(out)@) == violation_views(old(out)@) + entry_violations(
            *schema,
            *metadata,
            location@,
            index as nat,
        ),
{
    let expected = &metadata.plugins[index];
    let ghost start = violation_views(out@);
    if !str_eq(schema.plugin_id.as_str(), expected.plugin_id.as_str()) {
        let v = descriptor_mismatch(schema, location, index, "id", expected.plugin_id.as_str(), schema.plugin_id.as_str());
        push_violation(out, v);
    }
    let ghost s1 = violation_views(out@);
    if !str_eq(schema.plugin_name.as_str(), expected.plugin_name.as_str()) {
        let v = descriptor_mismatch(
            schema,
            location,
            index,
            "name",
            expected.plugin_name.as_str(),
            schema.plugin_name.as_str(),
        );
        push_violation(out, v);
    }
    let ghost s2 = violation_views(out@);
    if !str_eq(schema.plugin_vendor.as_str(), metadata.company_name.as_str()) {
        let v = descriptor_mismatch(
            schema,
            location,
            index,
            "vendor",
            metadata.company_name.as_str(),
            schema.plugin_vendor.as_str(),
        );
        push_violation(out, v);
    }
    let ghost s3 = violation_views(out@);
    if !str_eq(schema.plugin_version.as_str(), metadata.version.as_str()) {
        let v = descriptor_mismatch(
            schema,
            location,
            index,
            "version",
            metadata.version.as_str(),
            schema.plugin_version.as_str(),
        );
        push_violation(out, v);
    }
    proof {
        let e = entry_violations(*schema, *metadata, location@, index as nat);
        assert(violation_views(out@) =~= start + e);
    }
}

/// Whether each CLAP descriptor of the built bundle matches the manifest
/// product at the same index (id, name, vendor, version) and the counts agree.
pub fn clap_descriptor_manifest_violations(
    schemas: &[PluginSchema],
    metadata: &PluginMetadata,
    location: &str,
) -> (r: Vec<RuleViolation>)
    requires
        metadata.plugins@.len() > 0,
    ensures
        violation_views(r@) == descriptor_violations(schemas@, *metadata, location@),
{
    let mut out: Vec<RuleViolation> = Vec::new();
    let n = metadata.plugins.len();
    if schemas.len() != n {
        let mut msg = owned("CLAP descriptor count must match package.metadata.wrac.plugins. descriptor_count=");
        push_decimal(&mut msg, schemas.len());
        push_str(&mut msg, " manifest_count=");
        push_decimal(&mut msg, n);
        let v = RuleViolation {
            plugin_id: metadata.plugins[0].plugin_id.clone(),
            plugin_name: metadata.bundle_name.clone(),
            location: owned(location),
            rule_id: "clap-descriptors-match-manifest",
            message: msg,
            fix: "Expose one CLAP descriptor for each package.metadata.wrac.plugins entry, in the same order.",
        };
        push_violation(&mut out, v);
    }
    let ghost head = violation_views(out@);
    let mut i: usize = 0;
    while i < n
        invariant
            n == metadata.plugins@.len(),
            i <= n,
            violation_views(out@) == head + entries_violations(schemas@, *metadata, location@, i as nat),
        decreases n - i,
    {
        if i < schemas.len() {
            let ghost before = violation_views(out@);
            entry_mismatches(&mut out, &schemas[i], metadata, location, i);
            assert(violation_views(out@) =~= head + entries_violations(schemas@, *metadata, location@, (i + 1) as nat));
        }
        i += 1;
    }
    out
}

/// The value of `key` in a plist dictionary: that of its first entry.
pub open spec fn plist_lookup(entries: Seq<(Seq<char>, PlistValueView)>, key: Seq<char>) -> Option<
    PlistValueView,
>
    decreases entries.len(),
{
    if entries.len() == 0 {
        None
    } else if entries[0].0 == key {
        Some(entries[0].1)
    } else {
        plist_lookup(entries.drop_first(), key)
    }
}

pub open spec fn plist_text(entries: Seq<(Seq<char>, PlistValueView)>, key: Seq<char>) -> Option<Seq<char>> {
    match plist_lookup(entries, key) {
        Some(PlistValueView::Text(s)) => Some(s),
        _ => None,
    }
}

pub open spec fn plist_flag(entries: Seq<(Seq<char>, PlistValueView)>, key: Seq<char>) -> Option<bool> {
    match plist_lookup(entries, key) {
        Some(PlistValueView::Flag(b)) => Some(b),
        _ => None,
    }
}

pub open spec fn plist_fix() -> Seq<char> {
    "Keep CLAP bundle metadata generated from package.metadata.wrac."@
}

/// A violation when the text of `key` is not `expected`.
pub open spec fn plist_text_check(
    metadata: PluginMetadata,
    location: Seq<char>,
    entries: Seq<(Seq<char>, PlistValueView)>,
    key: Seq<char>,
    expected: Seq<char>,
) -> Seq<ViolationView> {
    let actual = plist_text(entries, key);
    if actual == Some(expected) {
        Seq::empty()
    } else {
        let shown = match actual {
            Some(a) => a,
            None => "<missing or non-string>"@,
        };
        seq![
            bundle_violation(
                metadata,
                location,
                rule_info_plist(),
                "CLAP Info.plist "@ + key + " does not match manifest metadata. expected=\""@ + expected
                    + "\" actual=\""@ + shown + "\""@,
                plist_fix(),
            ),
        ]
    }
}

/// A violation when the flag `key` is not `expected`.
pub open spec fn plist_flag_check(
    metadata: PluginMetadata,
    location: Seq<char>,
    entries: Seq<(Seq<char>, PlistValueView)>,
    key: Seq<char>,
    expected: bool,
) -> Seq<ViolationView> {
    let actual = plist_flag(entries, key);
    if actual == Some(expected) {
        Seq::empty()
    } else {
        let shown = match actual {
            Some(a) => bool_text(a),
            None => "<missing or non-boolean>"@,
        };
        seq![
            bundle_violation(
                metadata,
                location,
                rule_info_plist(),
                "CLAP Info.plist "@ + key + " does not match manifest metadata. expected="@ + bool_text(expected)
                    + " actual="@ + shown,
                plist_fix(),
            ),
        ]
    }
}

/// The mismatches between a bundle's `Info.plist` and the manifest.
pub open spec fn plist_violations(metadata: PluginMetadata, location: Seq<char>, doc: PlistDocumentView) -> Seq<
    ViolationView,
> {
    match doc {
        PlistDocumentView::Unreadable(e) => seq![
            bundle_violation(
                metadata,
                location,
                rule_info_plist(),
                "Failed to read CLAP Info.plist: "@ + e,
                "Build the CLAP artifact and keep Contents/Info.plist generated from package.metadata.wrac."@,
            ),
        ],
        PlistDocumentView::NotDictionary => seq![
            bundle_violation(
                metadata,
                location,
                rule_info_plist(),
                "CLAP Info.plist must be a dictionary."@,
                "Regenerate the CLAP bundle Info.plist from package.metadata.wrac."@,
            ),
        ],
        PlistDocumentView::Dictionary(d) => {
            let name = metadata.bundle_name@;
            plist_text_check(metadata, location, d, "CFBundleExecutable"@, name) + plist_text_check(
                metadata,
                location,
                d,
                "CFBundleName"@,
                name,
            ) + plist_text_check(metadata, location, d, "CFBundleDisplayName"@, name) + plist_text_check(
                metadata,
                location,
                d,
                "CFBundleIdentifier"@,
                metadata.plugins@[0].plugin_id@,
            ) + plist_text_check(metadata, location, d, "CFBundleShortVersionString"@, metadata.version@)
                + plist_text_check(metadata, location, d, "CFBundleVersion"@, metadata.version@)
                + plist_flag_check(metadata, location, d, "NSHighResolutionCapable"@, true)
        },
    }
}

fn lookup_entry<'a>(entries: &'a Vec<PlistEntry>, key: &str) -> (r: Option<&'a PlistValue>)
    ensures
        match plist_lookup(entry_views(entries@), key@) {
            Some(v) => r matches Some(x) && x@ == v,
            None => r is None,
        },
{
    let mut i: usize = 0;
    assert(entry_views(entries@).skip(0) =~= entry_views(entries@));
    while i < entries.len()
        invariant
            i <= entries@.len(),
            plist_lookup(entry_views(entries@), key@) == plist_lookup(entry_views(entries@).skip(i as int), key@),
        decreases entries.len() - i,
    {
        assert(entry_views(entries@).skip(i as int).drop_first() =~= entry_views(entries@).skip(i + 1));
        assert(entry_views(entries@).skip(i as int)[0] == entries@[i as int]@);
        if str_eq(entries[i].key.as_str(), key) {
            return Some(&entries[i].value);
        }
        i += 1;
    }
    None
}

fn bundle_violation_of(metadata: &PluginMetadata, location: &str, message: String, fix: &'static str) -> (r:
    RuleViolation)
    requires
        metadata.plugins@.len() > 0,
    ensures
        r@ == bundle_violation(*metadata, location@, rule_info_plist(), message@, fix@),
{
    RuleViolation {
        plugin_id: metadata.plugins[0].plugin_id.clone(),
        plugin_name: metadata.bundle_name.clone(),
        location: owned(location),
        rule_id: "macos-clap-info-plist-matches-manifest",
        message,
        fix,
    }
}

fn check_plist_text(
    out: &mut Vec<RuleViolation>,
    metadata: &PluginMetadata,
    location: &str,
    entries: &Vec<PlistEntry>,
    key: &str,
    expected: &str,
)
    requires
        metadata.plugins@.len() > 0,
    ensures
        violation_views(final(out)@) == violation_views(old(out)@) + plist_text_check(
            *metadata,
            location@,
            entry_views(entries@),
            key@,
            expected@,
        ),
{
    let actual: Option<&str> = match lookup_entry(entries, key) {
        Some(PlistValue::Text(s)) => Some(s.as_str()),
        _ => None,
    };
    let matches = match actual {
        Some(a) => str_eq(a, expected),
        None => false,
    };
    if !matches {
        let mut msg = owned("CLAP Info.plist ");
        push_str(&mut msg, key);
        push_str(&mut msg, " does not match manifest metadata. expected=\"");
        push_str(&mut msg, expected);
        push_str(&mut msg, "\" actual=\"");
        match actual {
            Some(a) => push_str(&mut msg, a),
            None => push_str(&mut msg, "<missing or non-string>"),
        }
        push_str(&mut msg, "\"");
        let v = bundle_violation_of(metadata, location, msg, "Keep CLAP bundle metadata generated from package.metadata.wrac.");
        push_violation(out, v);
    } else {
        assert(violation_views(out@) =~= violation_views(old(out)@) + Seq::<ViolationView>::empty());
    }
}

fn check_plist_flag(
    out: &mut Vec<RuleViolation>,
    metadata: &PluginMetadata,
    location: &str,
    entries: &Vec<PlistEntry>,
    key: &str,
    expected: bool,
)
    requires
        metadata.plugins@.len() > 0,
    ensures
        violation_views(final(out)@) == violation_views(old(out)@) + plist_flag_check(
            *metadata,
            location@,
            entry_views(entries@),
            key@,
            expected,
        ),
{
    let actual: Option<bool> = match lookup_entry(entries, key) {
        Some(PlistValue::Flag(b)) => Some(*b),
        _ => None,
    };
    let matches = match actual {
        Some(a) => a == expected,
        None => false,
    };
    if !matches {
        let mut msg = owned("CLAP Info.plist ");
        push_str(&mut msg, key);
        push_str(&mut msg, " does not match manifest metadata. expected=");
        push_bool(&mut msg, expected);
        push_str(&mut msg, " actual=");
        match actual {
            Some(a) => push_bool(&mut msg, a),
            None => push_str(&mut msg, "<missing or non-boolean>"),
        }
        let v = bundle_violation_of(metadata, location, msg, "Keep CLAP bundle metadata generated from package.metadata.wrac.");
        push_violation(out, v);
    } else {
        assert(violation_views(out@) =~= violation_views(old(out)@) + Seq::<ViolationView>::empty());
    }
}

/// Whether a bundle's `Info.plist` carries the manifest's bundle name,
/// identity, version and high-resolution flag; `location` is the plist's path.
pub fn clap_info_plist_violations(metadata: &PluginMetadata, location: &str, plist: &PlistDocument) -> (r: Vec<
    RuleViolation,
>)
    requires
        metadata.plugins@.len() > 0,
    ensures
        violation_views(r@) == plist_violations(*metadata, location@, plist@),
{
    let mut out: Vec<RuleViolation> = Vec::new();
    match plist {
        PlistDocument::Unreadable(e) => {
            let mut msg = owned("Failed to read CLAP Info.plist: ");
            push_str(&mut msg, e.as_str());
            let v = bundle_violation_of(
                metadata,
                location,
                msg,
                "Build the CLAP artifact and keep Contents/Info.plist generated from package.metadata.wrac.",
            );
            push_violation(&mut out, v);
        },
        PlistDocument::NotDictionary => {
            let v = bundle_violation_of(
                metadata,
                location,
                owned("CLAP Info.plist must be a dictionary."),
                "Regenerate the CLAP bundle Info.plist from package.metadata.wrac.",
            );
            push_violation(&mut out, v);
        },
        PlistDocument::Dictionary(entries) => {
            let name = metadata.bundle_name.as_str();
            check_plist_text(&mut out, metadata, location, entries, "CFBundleExecutable", name);
            check_plist_text(&mut out, metadata, location, entries, "CFBundleName", name);
            check_plist_text(&mut out, metadata, location, entries, "CFBundleDisplayName", name);
            check_plist_text(
                &mut out,
                metadata,
                location,
                entries,
                "CFBundleIdentifier",
                metadata.plugins[0].plugin_id.as_str(),
            );
            check_plist_text(&mut out, metadata, location, entries, "CFBundleShortVersionString", metadata.version.as_str());
            check_plist_text(&mut out, metadata, location, entries, "CFBundleVersion", metadata.version.as_str());
            check_plist_flag(&mut out, metadata, location, entries, "NSHighResolutionCapable", true);
        },
    }
    out
}

/// What the `plist` crate reads from these bytes: its error text, a
/// top-level value that is no dictionary, or the dictionary's entries in
/// order, with string and boolean values kept and the rest marked `Other`.
pub uninterp spec fn info_plist_of(bytes: Seq<u8>) -> PlistDocumentView;

/// `plist::Value::from_reader` over the bytes of an `Info.plist` (any plist
/// encoding), turned into the document the rules read. The contract only
/// names the result: parsing is the `plist` crate's and depends on the bytes
/// alone.
#[verifier::external_body]
fn parse_info_plist(bytes: &[u8]) -> (r: PlistDocument)
    ensures
        r@ == info_plist_of(bytes@),
{
    let value = match plist::Value::from_reader(std::io::Cursor::new(bytes)) {
        Err(err) => return PlistDocument::Unreadable(err.to_string()),
        Ok(value) => value,
    };
    let Some(dictionary) = value.into_dictionary() else { return PlistDocument::NotDictionary };
    let entry = |(key, value): (String, plist::Value)| match value {
        plist::Value::String(text) => PlistEntry { key, value: PlistValue::Text(text) },
        plist::Value::Boolean(flag) => PlistEntry { key, value: PlistValue::Flag(flag) },
        _ => PlistEntry { key, value: PlistValue::Other },
    };
    PlistDocument::Dictionary(dictionary.into_iter().map(entry).collect())
}

/// The document the rules read from the bytes of a bundle's `Info.plist`.
pub fn read_info_plist(bytes: &[u8]) -> (r: PlistDocument)
    ensures
        r@ == info_plist_of(bytes@),
{
    parse_info_plist(bytes)
}

/// The results of the bundle rules: the descriptors against the manifest,
/// and on macOS the `Info.plist` against the manifest.
pub open spec fn bundle_checks(
    schemas: Seq<PluginSchema>,
    metadata: PluginMetadata,
    validation: ValidationMetadata,
    location: Seq<char>,
    platform: Platform,
    plist_location: Seq<char>,
    plist: Option<PlistDocumentView>,
) -> Seq<ResultView> {
    let id = metadata.plugins@[0].plugin_id@;
    let name = metadata.bundle_name@;
    seq![
        reported(id, name, validation, rule_descriptors(), status_of(descriptor_violations(schemas, metadata, location))),
        reported(
            id,
            name,
            validation,
            rule_info_plist(),
            if platform == Platform::Macos {
                status_of(plist_violations(metadata, plist_location, plist.unwrap()))
            } else {
                StatusView::Skipped("macOS CLAP bundle metadata is not available on this platform."@)
            },
        ),
    ]
}

/// Evaluates the bundle rules. On macOS `plist` is the bundle's
/// `Contents/Info.plist` as read from `plist_location`; elsewhere that rule is
/// skipped and `plist` is not looked at.
pub fn evaluate_bundle_checks(
    schemas: &[PluginSchema],
    metadata: &PluginMetadata,
    validation: &ValidationMetadata,
    location: &str,
    platform: Platform,
    plist_location: &str,
    plist: Option<&PlistDocument>,
) -> (r: Vec<CheckResult>)
    requires
        metadata.plugins@.len() > 0,
        platform == Platform::Macos ==> plist is Some,
    ensures
        result_views(r@) == bundle_checks(
            schemas@,
            *metadata,
            *validation,
            location@,
            platform,
            plist_location@,
            match plist {
                Some(p) => Some(p@),
                None => None,
            },
        ),
{
    let mut results: Vec<CheckResult> = Vec::new();
    let id = &metadata.plugins[0].plugin_id;
    let name = &metadata.bundle_name;
    let descriptors = clap_descriptor_manifest_violations(schemas, metadata, location);
    report(&mut results, validation, id, name, "clap-descriptors-match-manifest", status_from(descriptors));
    let plist_status = match (platform, plist) {
        (Platform::Macos, Some(doc)) => status_from(clap_info_plist_violations(metadata, plist_location, doc)),
        _ => CheckStatus::Skipped("macOS CLAP bundle metadata is not available on this platform."),
    };
    report(&mut results, validation, id, name, "macos-clap-info-plist-matches-manifest", plist_status);
    results
}

} // verus!
