//! The configuration model and its resolution against the displays found.

pub mod document;
pub mod path;
pub mod presets;

use crate::config::presets::{sorted_pairs, InputPresets, Pair};
use crate::platform::{display_models, optional_text, DisplayInfo, DisplayModel};
use crate::text::{chars_of, join, join_strings, texts};
use crate::text::number::{decimal, decimal_chars, parse_unsigned, parse_unsigned_chars};
use crate::text::push_chars;
use crate::text::search::{contains_ignore_case, contains_ignore_case_chars, lower, occurs_at};
use vstd::prelude::*;

verus! {

/// What a rule asks of a display. An index, where given, is the whole
/// test; the text is looked at only where no index is given.
#[derive(Debug, Default, Clone)]
pub struct MonitorMatch {
    pub contains: Option<String>,
    pub index: Option<u32>,
}

/// One rule: the displays it is for, and what holds for them.
#[derive(Debug, Clone)]
pub struct MonitorConfig {
    pub match_rule: MonitorMatch,
    pub display: Option<String>,
    pub inputs: InputPresets,
}

/// What the user wrote down.
#[derive(Debug, Clone)]
pub struct Config {
    pub start_with_windows: Option<bool>,
    pub default_display: Option<String>,
    pub inputs: InputPresets,
    pub monitors: Vec<MonitorConfig>,
}

/// What one session works with: the display and the presets.
#[derive(Debug, Clone)]
pub struct ResolvedConfig {
    pub display_selector: String,
    pub inputs: InputPresets,
}

/// What a rule asks of a display, as contracts see it.
pub struct MatchModel {
    pub contains: Option<Seq<char>>,
    pub index: Option<u32>,
}

/// A rule as contracts see it.
pub struct RuleModel {
    pub match_rule: MatchModel,
    pub display: Option<Seq<char>>,
    pub inputs: Map<Seq<char>, u16>,
}

/// A configuration as contracts see it.
pub struct ConfigModel {
    pub start_with_windows: Option<bool>,
    pub default_display: Option<Seq<char>>,
    pub inputs: Map<Seq<char>, u16>,
    pub monitors: Seq<RuleModel>,
}

/// The outcome of resolution as contracts see it.
pub struct ResolvedModel {
    pub display_selector: Seq<char>,
    pub inputs: Map<Seq<char>, u16>,
}

impl View for MonitorMatch {
    type V = MatchModel;

    open spec fn view(&self) -> MatchModel {
        MatchModel { contains: optional_text(self.contains), index: self.index }
    }
}

impl View for MonitorConfig {
    type V = RuleModel;

    open spec fn view(&self) -> RuleModel {
        RuleModel {
            match_rule: self.match_rule@,
            display: optional_text(self.display),
            inputs: self.inputs@,
        }
    }
}

/// The rules of a list as contracts see them.
pub open spec fn rule_models(rules: Seq<MonitorConfig>) -> Seq<RuleModel> {
    Seq::new(rules.len(), |i: int| rules[i]@)
}

impl View for Config {
    type V = ConfigModel;

    open spec fn view(&self) -> ConfigModel {
        ConfigModel {
            start_with_windows: self.start_with_windows,
            default_display: optional_text(self.default_display),
            inputs: self.inputs@,
            monitors: rule_models(self.monitors@),
        }
    }
}

impl View for ResolvedConfig {
    type V = ResolvedModel;

    open spec fn view(&self) -> ResolvedModel {
        ResolvedModel { display_selector: self.display_selector@, inputs: self.inputs@ }
    }
}

/// The selector used where nothing chooses one: the first display.
pub open spec fn first_display_selector() -> Seq<char> {
    seq!['1']
}

/// The words before a UUID in a selector.
pub open spec fn uuid_prefix() -> Seq<char> {
    seq!['u', 'u', 'i', 'd', ':']
}

/// `needle` is part of the product name, letters compared without regard
/// to case. A display without a name, or with an empty one, has no part.
pub open spec fn name_matches(needle: Seq<char>, name: Option<Seq<char>>) -> bool {
    match name {
        Some(n) => n.len() > 0 && contains_ignore_case(n, needle),
        None => false,
    }
}

/// The display meets what the rule asks.
pub open spec fn display_matches(m: MatchModel, d: DisplayModel) -> bool {
    match m.index {
        Some(index) => d.index == index,
        None => match m.contains {
            Some(needle) => name_matches(needle, d.product_name),
            None => false,
        },
    }
}

/// Index of the first display that meets what the rule asks.
pub open spec fn first_display(m: MatchModel, displays: Seq<DisplayModel>) -> Option<int>
    decreases displays.len(),
{
    if displays.len() == 0 {
        None
    } else if display_matches(m, displays[0]) {
        Some(0)
    } else {
        match first_display(m, displays.drop_first()) {
            Some(i) => Some(i + 1),
            None => None,
        }
    }
}

/// The selector that names a display found by a rule: its UUID where it is
/// known, else its index.
pub open spec fn selector_for(d: DisplayModel) -> Seq<char> {
    match d.system_uuid {
        Some(uuid) => uuid_prefix() + uuid,
        None => decimal(d.index as nat),
    }
}

/// Index of the first rule that some display meets.
pub open spec fn first_rule(rules: Seq<RuleModel>, displays: Seq<DisplayModel>) -> Option<int>
    decreases rules.len(),
{
    if rules.len() == 0 {
        None
    } else if first_display(rules[0].match_rule, displays) is Some {
        Some(0)
    } else {
        match first_rule(rules.drop_first(), displays) {
            Some(i) => Some(i + 1),
            None => None,
        }
    }
}

/// What a rule decides once `d` is the display it found.
pub open spec fn rule_outcome(
    base: Map<Seq<char>, u16>,
    rule: RuleModel,
    d: DisplayModel,
) -> ResolvedModel {
    ResolvedModel {
        display_selector: match rule.display {
            Some(s) => s,
            None => selector_for(d),
        },
        inputs: base.union_prefer_right(rule.inputs),
    }
}

/// The display and the presets that a configuration, the displays found and
/// an explicit choice come to.
pub open spec fn resolve_spec(
    config: Option<ConfigModel>,
    displays: Seq<DisplayModel>,
    display_arg: Option<Seq<char>>,
) -> ResolvedModel {
    match config {
        None => ResolvedModel {
            display_selector: match display_arg {
                Some(s) => s,
                None => first_display_selector(),
            },
            inputs: Map::empty(),
        },
        Some(cfg) => match display_arg {
            Some(s) => ResolvedModel { display_selector: s, inputs: cfg.inputs },
            None => match cfg.default_display {
                Some(s) => ResolvedModel { display_selector: s, inputs: cfg.inputs },
                None => match first_rule(cfg.monitors, displays) {
                    Some(k) => rule_outcome(
                        cfg.inputs,
                        cfg.monitors[k],
                        displays[first_display(cfg.monitors[k].match_rule, displays)->0],
                    ),
                    None => ResolvedModel {
                        display_selector: first_display_selector(),
                        inputs: cfg.inputs,
                    },
                },
            },
        },
    }
}

/// What `first_display` finds: the first index that meets the rule.
pub proof fn lemma_first_display(m: MatchModel, displays: Seq<DisplayModel>)
    ensures
        match first_display(m, displays) {
            Some(i) => 0 <= i < displays.len() && display_matches(m, displays[i]) && forall|j: int|
                0 <= j < i ==> !display_matches(m, #[trigger] displays[j]),
            None => forall|j: int|
                0 <= j < displays.len() ==> !display_matches(m, #[trigger] displays[j]),
        },
    decreases displays.len(),
{
    if displays.len() > 0 && !display_matches(m, displays[0]) {
        let rest = displays.drop_first();
        lemma_first_display(m, rest);
        match first_display(m, rest) {
            Some(i) => {
                assert forall|j: int| 0 <= j < i + 1 implies !display_matches(
                    m,
                    #[trigger] displays[j],
                ) by {
                    if j > 0 {
                        assert(displays[j] == rest[j - 1]);
                    }
                }
            },
            None => {
                assert forall|j: int| 0 <= j < displays.len() implies !display_matches(
                    m,
                    #[trigger] displays[j],
                ) by {
                    if j > 0 {
                        assert(displays[j] == rest[j - 1]);
                    }
                }
            },
        }
    }
}

/// The index that meets the rule with none before it that does is what
/// `first_display` finds.
pub proof fn lemma_first_display_is(m: MatchModel, displays: Seq<DisplayModel>, i: int)
    requires
        0 <= i <= displays.len(),
        forall|j: int| 0 <= j < i ==> !display_matches(m, #[trigger] displays[j]),
        i < displays.len() ==> display_matches(m, displays[i]),
    ensures
        first_display(m, displays) == if i < displays.len() {
            Some(i)
        } else {
            None::<int>
        },
{
    lemma_first_display(m, displays);
}

/// What `first_rule` finds: the first rule that some display meets.
pub proof fn lemma_first_rule(rules: Seq<RuleModel>, displays: Seq<DisplayModel>)
    ensures
        match first_rule(rules, displays) {
            Some(k) => 0 <= k < rules.len() && first_display(rules[k].match_rule, displays)
                is Some && forall|j: int|
                0 <= j < k ==> first_display((#[trigger] rules[j]).match_rule, displays) is None,
            None => forall|j: int|
                0 <= j < rules.len() ==> first_display((#[trigger] rules[j]).match_rule, displays)
                    is None,
        },
    decreases rules.len(),
{
    if rules.len() > 0 && first_display(rules[0].match_rule, displays) is None {
        let rest = rules.drop_first();
        lemma_first_rule(rest, displays);
        match first_rule(rest, displays) {
            Some(k) => {
                assert forall|j: int| 0 <= j < k + 1 implies first_display(
                    (#[trigger] rules[j]).match_rule,
                    displays,
                ) is None by {
                    if j > 0 {
                        assert(rules[j] == rest[j - 1]);
                    }
                }
            },
            None => {
                assert forall|j: int| 0 <= j < rules.len() implies first_display(
                    (#[trigger] rules[j]).match_rule,
                    displays,
                ) is None by {
                    if j > 0 {
                        assert(rules[j] == rest[j - 1]);
                    }
                }
            },
        }
    }
}

/// `true` when the display meets what the rule asks.
pub fn display_meets(rule: &MonitorMatch, display: &DisplayInfo) -> (r: bool)
    ensures
        r == display_matches(rule@, display@),
{
    match rule.index {
        Some(index) => display.index == index,
        None => match &rule.contains {
            Some(needle) => match &display.product_name {
                Some(name) => {
                    let hay = chars_of(name.as_str());
                    let n = chars_of(needle.as_str());
                    hay.len() > 0 && contains_ignore_case_chars(&hay, &n)
                },
                None => false,
            },
            None => false,
        },
    }
}

/// The selector that names `display`: its UUID where it is known, else its
/// index.
pub fn selector_for_display(display: &DisplayInfo) -> (r: String)
    ensures
        r@ == selector_for(display@),
{
    match &display.system_uuid {
        Some(uuid) => {
            let mut s = String::new();
            s.push('u');
            s.push('u');
            s.push('i');
            s.push('d');
            s.push(':');
            s.append(uuid.as_str());
            assert(s@ =~= uuid_prefix() + uuid@);
            s
        },
        None => {
            let digits = decimal_chars(display.index as u64);
            let mut s = String::new();
            push_chars(&mut s, &digits);
            assert(s@ =~= digits@);
            s
        },
    }
}

/// The first display that meets the rule, with the selector that names it.
pub fn match_display<'a>(mon_cfg: &MonitorConfig, displays: &'a [DisplayInfo]) -> (r: Option<
    (&'a DisplayInfo, String),
>)
    ensures
        match r {
            Some((d, selector)) => {
                &&& first_display(mon_cfg@.match_rule, display_models(displays@)) matches Some(i)
                &&& 0 <= i < displays@.len()
                &&& *d == displays@[i]
                &&& selector@ == selector_for(d@)
            },
            None => first_display(mon_cfg@.match_rule, display_models(displays@)) is None,
        },
{
    let ghost models = display_models(displays@);
    let mut i: usize = 0;
    while i < displays.len()
        invariant
            i <= displays.len(),
            models == display_models(displays@),
            forall|j: int| 0 <= j < i ==> !display_matches(mon_cfg@.match_rule, #[trigger] models[j]),
        decreases displays.len() - i,
    {
        let d = &displays[i];
        if display_meets(&mon_cfg.match_rule, d) {
            proof {
                lemma_first_display_is(mon_cfg@.match_rule, models, i as int);
            }
            return Some((d, selector_for_display(d)));
        }
        i += 1;
    }
    proof {
        lemma_first_display_is(mon_cfg@.match_rule, models, i as int);
    }
    None
}

/// Resolves the configuration, the displays found and an explicit choice
/// to the display and presets of the session.
///
/// An explicit choice stands. Without one the configuration's default
/// display stands. Without that the rules are tried in the order they are
/// written: the first that some display meets names the display, by its own
/// `display` or by what identifies the display found, and lays its presets
/// over the global ones. Where nothing chooses, the display is `1`.
pub fn resolve(config: Option<&Config>, displays: &[DisplayInfo], display_arg: Option<&str>) -> (r:
    ResolvedConfig)
    ensures
        r@ == resolve_spec(
            match config {
                Some(c) => Some(c@),
                None => None,
            },
            display_models(displays@),
            match display_arg {
                Some(s) => Some(s@),
                None => None,
            },
        ),
{
    let cfg = match config {
        Some(cfg) => cfg,
        None => {
            let display_selector = match display_arg {
                Some(s) => String::from_str(s),
                None => default_selector(),
            };
            return ResolvedConfig { display_selector, inputs: InputPresets::new() };
        },
    };
    if let Some(s) = display_arg {
        return ResolvedConfig { display_selector: String::from_str(s), inputs: cfg.inputs.copy() };
    }
    if let Some(s) = &cfg.default_display {
        return ResolvedConfig { display_selector: s.clone(), inputs: cfg.inputs.copy() };
    }
    let ghost rules = rule_models(cfg.monitors@);
    let ghost models = display_models(displays@);
    let mut k: usize = 0;
    while k < cfg.monitors.len()
        invariant
            k <= cfg.monitors.len(),
            config == Some(cfg),
            display_arg is None,
            cfg.default_display is None,
            rules == rule_models(cfg.monitors@),
            models == display_models(displays@),
            forall|j: int| 0 <= j < k ==> first_display((#[trigger] rules[j]).match_rule, models)
                is None,
        decreases cfg.monitors.len() - k,
    {
        let mon_cfg = &cfg.monitors[k];
        assert(mon_cfg@ == rules[k as int]);
        if let Some((found, inferred)) = match_display(mon_cfg, displays) {
            let display_selector = match &mon_cfg.display {
                Some(explicit) => explicit.clone(),
                None => inferred,
            };
            proof {
                lemma_first_rule(rules, models);
                let i = first_display(rules[k as int].match_rule, models)->0;
                assert(models[i] == found@);
            }
            return ResolvedConfig { display_selector, inputs: cfg.inputs.merged(&mon_cfg.inputs) };
        }
        k += 1;
    }
    proof {
        lemma_first_rule(rules, models);
    }
    ResolvedConfig { display_selector: default_selector(), inputs: cfg.inputs.copy() }
}

/// The selector of the first display.
pub fn default_selector() -> (r: String)
    ensures
        r@ == first_display_selector(),
{
    let mut s = String::new();
    s.push('1');
    assert(s@ =~= first_display_selector());
    s
}

/// The names of the pairs, in their order.
pub open spec fn names_of(pairs: Seq<Pair>) -> Seq<Seq<char>> {
    Seq::new(pairs.len(), |i: int| pairs[i].0)
}

/// The value that `value` stands for: the number it spells, where it
/// spells one of sixteen bits; else the preset of that name, where there is
/// one. A number is never looked up as a name.
pub open spec fn input_value_of(value: Seq<char>, inputs: Map<Seq<char>, u16>) -> Option<u16> {
    match parse_unsigned(value, 0xFFFF) {
        Some(n) => Some(n as u16),
        None => if inputs.contains_key(value) {
            Some(inputs[value])
        } else {
            None
        },
    }
}

/// What is said of a value that is neither a number nor the name of a
/// preset: the value, and the names that are known.
pub open spec fn invalid_input_text(value: Seq<char>, known: Seq<Seq<char>>) -> Seq<char> {
    "Invalid input value '"@ + value + "'. Expected a number or a configured preset name. "@ + (
    if known.len() == 0 {
        "No input presets configured."@
    } else {
        "Known presets: "@ + join(known, ", "@)
    })
}

/// A value that is neither a number nor the name of a preset, with the
/// names that are known, in their order.
#[derive(Debug, Clone)]
pub struct InputValueError {
    pub value: String,
    pub known: Vec<String>,
}

impl InputValueError {
    /// What to tell the user.
    pub fn message(&self) -> (r: String)
        ensures
            r@ == invalid_input_text(self.value@, texts(self.known@)),
    {
        let mut r = String::from_str("Invalid input value '");
        r.append(self.value.as_str());
        r.append("'. Expected a number or a configured preset name. ");
        if self.known.len() == 0 {
            r.append("No input presets configured.");
        } else {
            r.append("Known presets: ");
            let list = join_strings(&self.known, ", ");
            r.append(list.as_str());
            assert(r@ =~= invalid_input_text(self.value@, texts(self.known@)));
        }
        r
    }
}

/// Reads the value that the user gave for an input: a number of sixteen
/// bits, or else the name of a preset. The number is tried first, so a
/// preset whose name is a number cannot be reached by that name.
pub fn parse_input_value(value: &str, resolved: &ResolvedConfig) -> (r: Result<u16, InputValueError>)
    ensures
        match r {
            Ok(v) => input_value_of(value@, resolved@.inputs) == Some(v),
            Err(e) => {
                &&& input_value_of(value@, resolved@.inputs) is None
                &&& e.value@ == value@
                &&& texts(e.known@) == names_of(sorted_pairs(resolved@.inputs))
            },
        },
{
    let chars = chars_of(value);
    if let Some(n) = parse_unsigned_chars(&chars, 0xFFFF) {
        return Ok(n as u16);
    }
    if let Some(v) = resolved.inputs.get(value) {
        return Ok(v);
    }
    let n = resolved.inputs.len();
    let ghost pairs = resolved.inputs.pairs();
    let mut known: Vec<String> = Vec::new();
    let mut i: usize = 0;
    while i < n
        invariant
            i <= n,
            n == pairs.len(),
            pairs == resolved.inputs.pairs(),
            known@.len() == i,
            forall|k: int| 0 <= k < i ==> (#[trigger] known@[k])@ == pairs[k].0,
        decreases n - i,
    {
        known.push(resolved.inputs.name_at(i).clone());
        i += 1;
    }
    assert(texts(known@) =~= names_of(pairs));
    Err(InputValueError { value: String::from_str(value), known })
}

/// An explicit choice of display always stands, whatever the
/// configuration and the displays are.
pub proof fn lemma_explicit_choice_stands(
    config: Option<ConfigModel>,
    displays: Seq<DisplayModel>,
    choice: Seq<char>,
)
    ensures
        resolve_spec(config, displays, Some(choice)).display_selector == choice,
{
}

/// Without an explicit choice, a configuration that has no rules and no
/// default display resolves to the first display, and so does the lack of
/// a configuration.
pub proof fn lemma_nothing_chooses(config: Option<ConfigModel>, displays: Seq<DisplayModel>)
    requires
        config matches Some(cfg) ==> cfg.monitors.len() == 0 && cfg.default_display is None,
    ensures
        resolve_spec(config, displays, None).display_selector == first_display_selector(),
{
}

/// The rule that some display meets, with none before it that any display
/// meets, is the rule that `first_rule` finds.
pub proof fn lemma_first_rule_is(rules: Seq<RuleModel>, displays: Seq<DisplayModel>, k: int)
    requires
        0 <= k < rules.len(),
        first_display(rules[k].match_rule, displays) is Some,
        forall|j: int| 0 <= j < k ==> first_display((#[trigger] rules[j]).match_rule, displays) is None,
    ensures
        first_rule(rules, displays) == Some(k),
{
    lemma_first_rule(rules, displays);
}

/// The first rule, in the order written, that some display meets decides:
/// the outcome is that rule's, whatever rules follow it.
pub proof fn lemma_first_matching_rule_decides(
    config: ConfigModel,
    displays: Seq<DisplayModel>,
    k: int,
)
    requires
        config.default_display is None,
        0 <= k < config.monitors.len(),
        first_display(config.monitors[k].match_rule, displays) is Some,
        forall|j: int|
            0 <= j < k ==> first_display((#[trigger] config.monitors[j]).match_rule, displays)
                is None,
    ensures
        resolve_spec(Some(config), displays, None) == rule_outcome(
            config.inputs,
            config.monitors[k],
            displays[first_display(config.monitors[k].match_rule, displays)->0],
        ),
{
    lemma_first_rule_is(config.monitors, displays, k);
}

/// Rules after the first one that some display meets are never consulted:
/// two configurations that agree up to and including that rule resolve
/// alike.
pub proof fn lemma_later_rules_never_consulted(
    config: ConfigModel,
    other: ConfigModel,
    displays: Seq<DisplayModel>,
    k: int,
)
    requires
        0 <= k < config.monitors.len(),
        first_display(config.monitors[k].match_rule, displays) is Some,
        forall|j: int|
            0 <= j < k ==> first_display((#[trigger] config.monitors[j]).match_rule, displays)
                is None,
        other.default_display == config.default_display,
        other.inputs == config.inputs,
        k < other.monitors.len(),
        other.monitors.take(k + 1) == config.monitors.take(k + 1),
    ensures
        resolve_spec(Some(other), displays, None) == resolve_spec(Some(config), displays, None),
{
    assert forall|j: int| 0 <= j <= k implies #[trigger] other.monitors[j]
        == config.monitors[j] by {
        assert(other.monitors.take(k + 1)[j] == other.monitors[j]);
        assert(config.monitors.take(k + 1)[j] == config.monitors[j]);
    }
    lemma_first_rule_is(config.monitors, displays, k);
    lemma_first_rule_is(other.monitors, displays, k);
}

/// A rule with an index asks for that index and nothing else: the text it
/// may also hold is not looked at.
pub proof fn lemma_index_is_exact(m: MatchModel, d: DisplayModel)
    requires
        m.index is Some,
    ensures
        display_matches(m, d) == (d.index == m.index->0),
{
}

/// A rule without an index and without a text is met by no display.
pub proof fn lemma_empty_rule_matches_nothing(m: MatchModel, d: DisplayModel)
    requires
        m.index is None,
        m.contains is None,
    ensures
        !display_matches(m, d),
{
}

/// A display without a product name, or with an empty one, meets no rule
/// that asks for a text.
pub proof fn lemma_absent_name_never_matches(m: MatchModel, d: DisplayModel)
    requires
        m.index is None,
        d.product_name matches Some(name) ==> name.len() == 0,
    ensures
        !display_matches(m, d),
{
}

/// A rule that asks for a text is met where the text is part of the
/// product name.
pub proof fn lemma_text_matches_part_of_name(needle: Seq<char>, name: Seq<char>, i: int)
    requires
        name.len() > 0,
        0 <= i,
        i + needle.len() <= name.len(),
        lower(name.subrange(i, i + needle.len())) == lower(needle),
    ensures
        name_matches(needle, Some(name)),
{
    let hay = lower(name);
    let n = lower(needle);
    assert(hay.subrange(i, i + n.len()) =~= lower(name.subrange(i, i + needle.len())));
    assert(occurs_at(hay, n, i));
}

/// Case makes no difference to a rule that asks for a text: texts that are
/// the same but for the case of ASCII letters match alike.
pub proof fn lemma_match_ignores_case(
    needle: Seq<char>,
    name: Seq<char>,
    other_needle: Seq<char>,
    other_name: Seq<char>,
)
    requires
        lower(needle) == lower(other_needle),
        lower(name) == lower(other_name),
    ensures
        name_matches(needle, Some(name)) == name_matches(other_needle, Some(other_name)),
{
    assert(lower(name).len() == name.len());
    assert(lower(other_name).len() == other_name.len());
}

/// A value that spells a number of sixteen bits is that number, also where
/// a preset has the same text as its name.
pub proof fn lemma_number_before_name(value: Seq<char>, inputs: Map<Seq<char>, u16>, n: nat)
    requires
        parse_unsigned(value, 0xFFFF) == Some(n),
    ensures
        input_value_of(value, inputs) == Some(n as u16),
        inputs.contains_key(value) ==> input_value_of(value, inputs) == Some(n as u16),
{
}

} // verus!
