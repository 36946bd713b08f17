//! Plugin parameters: identifiers, definitions, kinds and their validation, and
//! the set of current values of a plugin.
//!
//! Continuous values, ranges, steps and skews are carried as the bit patterns of
//! their `f32` values (`f32::to_bits`); they are compared as the floating-point
//! values they stand for (see `float_order`).

use vstd::prelude::*;

use crate::float_order::{at_most, bits_equal, bits_less, is_nan, less, rank, same_value};

verus! {

/// Identifier of a plugin parameter.
#[derive(Debug, Hash)]
pub struct ParameterId(String);

impl ParameterId {
    /// The identifier's text.
    pub closed spec fn view(&self) -> Seq<char> {
        self.0@
    }

    /// An identifier with the given text.
    pub fn new(id: String) -> (p: Self)
        ensures
            p@ == id@,
    {
        Self(id)
    }

    /// The identifier's text.
    pub fn as_str(&self) -> (s: &str)
        ensures
            s@ == self@,
    {
        self.0.as_str()
    }
}

impl Clone for ParameterId {
    fn clone(&self) -> (c: Self)
        ensures
            c@ == self@,
    {
        ParameterId(self.0.clone())
    }
}

impl PartialEq for ParameterId {
    fn eq(&self, other: &Self) -> (r: bool) {
        self.0 == other.0
    }
}

impl Eq for ParameterId {}

impl vstd::std_specs::cmp::PartialEqSpecImpl for ParameterId {
    open spec fn obeys_eq_spec() -> bool {
        true
    }

    open spec fn eq_spec(&self, other: &Self) -> bool {
        self@ == other@
    }
}

/// Range, default and optional step and skew of a continuous parameter (bit
/// patterns of `f32` values).
#[derive(Debug, Clone, Copy)]
pub struct ContinuousParameterOptions {
    pub min_bits: u32,
    pub max_bits: u32,
    pub default_bits: u32,
    pub step_bits: Option<u32>,
    pub skew_bits: Option<u32>,
}

/// `min <= default <= max`, none of them NaN.
pub open spec fn range_holds(min: u32, max: u32, default: u32) -> bool {
    at_most(min, max) && at_most(min, default) && at_most(default, max)
}

impl ContinuousParameterOptions {
    /// Options for the range `min..=max` with the given default, without step or
    /// skew. The range must not be inverted and must hold the default.
    pub fn new(min_bits: u32, max_bits: u32, default_bits: u32) -> (o: Self)
        requires
            range_holds(min_bits, max_bits, default_bits),
        ensures
            o == (ContinuousParameterOptions {
                min_bits,
                max_bits,
                default_bits,
                step_bits: None,
                skew_bits: None,
            }),
    {
        ContinuousParameterOptions { min_bits, max_bits, default_bits, step_bits: None, skew_bits: None }
    }

    /// The options with a step.
    pub fn with_step(self, step_bits: u32) -> (o: Self)
        ensures
            o == (ContinuousParameterOptions { step_bits: Some(step_bits), ..self }),
    {
        ContinuousParameterOptions { step_bits: Some(step_bits), ..self }
    }

    /// The options with a skew.
    pub fn with_skew(self, skew_bits: u32) -> (o: Self)
        ensures
            o == (ContinuousParameterOptions { skew_bits: Some(skew_bits), ..self }),
    {
        ContinuousParameterOptions { skew_bits: Some(skew_bits), ..self }
    }
}

/// The value of a parameter.
#[derive(Debug, Clone, Copy)]
pub enum ParameterValue {
    /// Bit pattern of an `f32` value.
    Continuous(u32),
    Toggle(bool),
    Choice(usize),
}

/// Two parameter values are equal: same variant, and continuous values equal as
/// floating-point numbers (so a NaN equals nothing).
pub open spec fn values_equal(a: ParameterValue, b: ParameterValue) -> bool {
    match (a, b) {
        (ParameterValue::Continuous(x), ParameterValue::Continuous(y)) => same_value(x, y),
        (ParameterValue::Toggle(x), ParameterValue::Toggle(y)) => x == y,
        (ParameterValue::Choice(x), ParameterValue::Choice(y)) => x == y,
        _ => false,
    }
}

impl PartialEq for ParameterValue {
    fn eq(&self, other: &Self) -> (r: bool) {
        match (self, other) {
            (ParameterValue::Continuous(x), ParameterValue::Continuous(y)) => bits_equal(*x, *y),
            (ParameterValue::Toggle(x), ParameterValue::Toggle(y)) => *x == *y,
            (ParameterValue::Choice(x), ParameterValue::Choice(y)) => *x == *y,
            _ => false,
        }
    }
}

impl vstd::std_specs::cmp::PartialEqSpecImpl for ParameterValue {
    open spec fn obeys_eq_spec() -> bool {
        true
    }

    open spec fn eq_spec(&self, other: &Self) -> bool {
        values_equal(*self, *other)
    }
}

/// The name of a value's type, as error messages give it.
pub open spec fn value_type_name(v: ParameterValue) -> Seq<char> {
    match v {
        ParameterValue::Continuous(_) => "continuous"@,
        ParameterValue::Toggle(_) => "toggle"@,
        ParameterValue::Choice(_) => "choice"@,
    }
}

impl ParameterValue {
    /// The continuous value, if this is one.
    pub fn as_continuous(&self) -> (r: Option<u32>)
        ensures
            r == match *self {
                ParameterValue::Continuous(v) => Some(v),
                _ => None,
            },
    {
        match self {
            ParameterValue::Continuous(v) => Some(*v),
            _ => None,
        }
    }

    /// The toggle value, if this is one.
    pub fn as_toggle(&self) -> (r: Option<bool>)
        ensures
            r == match *self {
                ParameterValue::Toggle(v) => Some(v),
                _ => None,
            },
    {
        match self {
            ParameterValue::Toggle(v) => Some(*v),
            _ => None,
        }
    }

    /// The choice index, if this is one.
    pub fn as_choice(&self) -> (r: Option<usize>)
        ensures
            r == match *self {
                ParameterValue::Choice(v) => Some(v),
                _ => None,
            },
    {
        match self {
            ParameterValue::Choice(v) => Some(*v),
            _ => None,
        }
    }

    /// The name of the value's type.
    pub fn type_label(&self) -> (r: &'static str)
        ensures
            r@ == value_type_name(*self),
    {
        match self {
            ParameterValue::Continuous(_) => "continuous",
            ParameterValue::Toggle(_) => "toggle",
            ParameterValue::Choice(_) => "choice",
        }
    }
}

impl From<bool> for ParameterValue {
    fn from(value: bool) -> (r: Self) {
        ParameterValue::Toggle(value)
    }
}

impl vstd::std_specs::convert::FromSpecImpl<bool> for ParameterValue {
    open spec fn obeys_from_spec() -> bool {
        true
    }

    open spec fn from_spec(v: bool) -> Self {
        ParameterValue::Toggle(v)
    }
}

impl From<usize> for ParameterValue {
    fn from(value: usize) -> (r: Self) {
        ParameterValue::Choice(value)
    }
}

impl vstd::std_specs::convert::FromSpecImpl<usize> for ParameterValue {
    open spec fn obeys_from_spec() -> bool {
        true
    }

    open spec fn from_spec(v: usize) -> Self {
        ParameterValue::Choice(v)
    }
}

/// What values a parameter takes.
#[derive(Debug)]
pub enum ParameterKind {
    Continuous(ContinuousParameterOptions),
    Toggle { default: bool },
    Choice { options: Vec<String>, default: usize },
}

/// The value a parameter of `kind` starts with.
pub open spec fn default_of(kind: ParameterKind) -> ParameterValue {
    match kind {
        ParameterKind::Continuous(o) => ParameterValue::Continuous(o.default_bits),
        ParameterKind::Toggle { default } => ParameterValue::Toggle(default),
        ParameterKind::Choice { default, .. } => ParameterValue::Choice(default),
    }
}

/// The name of a kind, as error messages give it.
pub open spec fn kind_type_name(kind: ParameterKind) -> Seq<char> {
    match kind {
        ParameterKind::Continuous(_) => "continuous"@,
        ParameterKind::Toggle { .. } => "toggle"@,
        ParameterKind::Choice { .. } => "choice"@,
    }
}

/// A parameter of `kind` accepts `value`: the value has the kind's type, a
/// continuous value is neither below the minimum nor above the maximum, and a
/// choice indexes one of the options.
pub open spec fn accepts(kind: ParameterKind, value: ParameterValue) -> bool {
    match (kind, value) {
        (ParameterKind::Continuous(o), ParameterValue::Continuous(v)) => !less(v, o.min_bits) && !less(
            o.max_bits,
            v,
        ),
        (ParameterKind::Toggle { .. }, ParameterValue::Toggle(_)) => true,
        (ParameterKind::Choice { options, .. }, ParameterValue::Choice(i)) => i < options@.len(),
        _ => false,
    }
}

/// `e` is the error that refuses `value` for parameter `id` of `kind`: out of range
/// (with the range and value), an invalid choice (with the index and the number of
/// options), or the wrong type (with the expected and received type names).
pub open spec fn refusal(e: PluginParameterError, kind: ParameterKind, id: Seq<char>, value: ParameterValue) -> bool {
    match (kind, value) {
        (ParameterKind::Continuous(o), ParameterValue::Continuous(v)) => e matches PluginParameterError::OutOfRange {
            id: eid,
            min_bits,
            max_bits,
            value_bits,
        } && eid@ == id && min_bits == o.min_bits && max_bits == o.max_bits && value_bits == v,
        (ParameterKind::Choice { options, .. }, ParameterValue::Choice(i)) => e matches PluginParameterError::InvalidChoice {
            id: eid,
            index,
            count,
        } && eid@ == id && index == i && count == options@.len(),
        _ => e matches PluginParameterError::WrongType { id: eid, expected, actual } && eid@ == id && expected@
            == kind_type_name(kind) && actual@ == value_type_name(value),
    }
}

impl ParameterKind {
    /// A continuous kind over `min..=max` with the given default; the range must
    /// not be inverted and must hold the default.
    pub fn continuous(min_bits: u32, max_bits: u32, default_bits: u32) -> (k: Self)
        requires
            range_holds(min_bits, max_bits, default_bits),
        ensures
            k == ParameterKind::Continuous(
                ContinuousParameterOptions {
                    min_bits,
                    max_bits,
                    default_bits,
                    step_bits: None,
                    skew_bits: None,
                },
            ),
    {
        ParameterKind::Continuous(ContinuousParameterOptions::new(min_bits, max_bits, default_bits))
    }

    /// The value a parameter of this kind starts with.
    pub fn default_value(&self) -> (v: ParameterValue)
        ensures
            v == default_of(*self),
    {
        match self {
            ParameterKind::Continuous(opts) => ParameterValue::Continuous(opts.default_bits),
            ParameterKind::Toggle { default } => ParameterValue::Toggle(*default),
            ParameterKind::Choice { default, .. } => ParameterValue::Choice(*default),
        }
    }

    /// Checks `value` for the parameter `id` of this kind: `Ok` when the kind
    /// accepts it, else the error that says why not.
    pub fn validate(&self, id: &ParameterId, value: &ParameterValue) -> (r: Result<(), PluginParameterError>)
        ensures
            accepts(*self, *value) ==> r is Ok,
            !accepts(*self, *value) ==> (r matches Err(e) && refusal(e, *self, id@, *value)),
    {
        match (self, value) {
            (ParameterKind::Continuous(opts), ParameterValue::Continuous(v)) => {
                if bits_less(*v, opts.min_bits) || bits_less(opts.max_bits, *v) {
                    Err(
                        PluginParameterError::OutOfRange {
                            id: id.clone(),
                            min_bits: opts.min_bits,
                            max_bits: opts.max_bits,
                            value_bits: *v,
                        },
                    )
                } else {
                    Ok(())
                }
            },
            (ParameterKind::Toggle { .. }, ParameterValue::Toggle(_)) => Ok(()),
            (ParameterKind::Choice { options, .. }, ParameterValue::Choice(idx)) => {
                if *idx >= options.len() {
                    Err(PluginParameterError::InvalidChoice { id: id.clone(), index: *idx, count: options.len() })
                } else {
                    Ok(())
                }
            },
            _ => Err(
                PluginParameterError::WrongType {
                    id: id.clone(),
                    expected: self.type_label(),
                    actual: value.type_label(),
                },
            ),
        }
    }

    fn type_label(&self) -> (r: &'static str)
        ensures
            r@ == kind_type_name(*self),
    {
        match self {
            ParameterKind::Continuous(_) => "continuous",
            ParameterKind::Toggle { .. } => "toggle",
            ParameterKind::Choice { .. } => "choice",
        }
    }
}

/// A parameter a plugin exposes.
#[derive(Debug)]
pub struct ParameterDefinition {
    pub id: ParameterId,
    pub name: String,
    pub kind: ParameterKind,
    pub unit: Option<String>,
    pub description: Option<String>,
}

impl ParameterDefinition {
    /// A definition without unit or description.
    pub fn new(id: ParameterId, name: String, kind: ParameterKind) -> (d: Self)
        ensures
            d.id@ == id@,
            d.name@ == name@,
            d.kind == kind,
            d.unit is None,
            d.description is None,
    {
        ParameterDefinition { id, name, kind, unit: None, description: None }
    }

    /// The definition with a unit.
    pub fn with_unit(self, unit: String) -> (d: Self)
        ensures
            d == (ParameterDefinition { unit: Some(unit), ..self }),
    {
        ParameterDefinition { unit: Some(unit), ..self }
    }

    /// The definition with a description.
    pub fn with_description(self, description: String) -> (d: Self)
        ensures
            d == (ParameterDefinition { description: Some(description), ..self }),
    {
        ParameterDefinition { description: Some(description), ..self }
    }
}

/// `a` is a copy of `b`: the same kind with the same settings and options.
pub open spec fn kind_matches(a: ParameterKind, b: ParameterKind) -> bool {
    match (a, b) {
        (ParameterKind::Continuous(x), ParameterKind::Continuous(y)) => x == y,
        (ParameterKind::Toggle { default: x }, ParameterKind::Toggle { default: y }) => x == y,
        (ParameterKind::Choice { options: o, default: x }, ParameterKind::Choice { options: p, default: y }) => x
            == y && o@ == p@,
        _ => false,
    }
}

/// `a` is a copy of `b`: same identifier, name, kind, unit and description.
pub open spec fn definition_matches(a: ParameterDefinition, b: ParameterDefinition) -> bool {
    &&& a.id@ == b.id@
    &&& a.name == b.name
    &&& kind_matches(a.kind, b.kind)
    &&& a.unit == b.unit
    &&& a.description == b.description
}

/// The definitions `a` are copies of the definitions `b`, in the same order.
pub open spec fn definitions_match(a: Seq<ParameterDefinition>, b: Seq<ParameterDefinition>) -> bool {
    &&& a.len() == b.len()
    &&& forall|i: int| 0 <= i < a.len() ==> definition_matches(#[trigger] a[i], b[i])
}

fn clone_strings(v: &Vec<String>) -> (c: Vec<String>)
    ensures
        c@ == v@,
{
    let mut c: Vec<String> = Vec::new();
    let mut i: usize = 0;
    while i < v.len()
        invariant
            i <= v@.len(),
            c@ == v@.take(i as int),
        decreases v@.len() - i,
    {
        c.push(v[i].clone());
        i += 1;
        assert(c@ =~= v@.take(i as int));
    }
    assert(v@.take(v@.len() as int) =~= v@);
    c
}

fn clone_text(t: &Option<String>) -> (c: Option<String>)
    ensures
        c == *t,
{
    match t {
        Some(s) => Some(s.clone()),
        None => None,
    }
}

impl Clone for ParameterKind {
    fn clone(&self) -> (c: Self)
        ensures
            kind_matches(c, *self),
    {
        match self {
            ParameterKind::Continuous(o) => ParameterKind::Continuous(*o),
            ParameterKind::Toggle { default } => ParameterKind::Toggle { default: *default },
            ParameterKind::Choice { options, default } => ParameterKind::Choice {
                options: clone_strings(options),
                default: *default,
            },
        }
    }
}

impl Clone for ParameterDefinition {
    fn clone(&self) -> (c: Self)
        ensures
            definition_matches(c, *self),
    {
        ParameterDefinition {
            id: self.id.clone(),
            name: self.name.clone(),
            kind: self.kind.clone(),
            unit: clone_text(&self.unit),
            description: clone_text(&self.description),
        }
    }
}

/// A continuous parameter takes a value exactly when the value lies within its
/// range as a number: one below the minimum or above the maximum is refused, one
/// between them (bounds included) is taken; a NaN value compares with nothing and
/// is taken.
pub proof fn law_continuous_range(o: ContinuousParameterOptions, v: u32)
    ensures
        is_nan(v) ==> accepts(ParameterKind::Continuous(o), ParameterValue::Continuous(v)),
        !is_nan(v) && !is_nan(o.min_bits) && rank(v) < rank(o.min_bits) ==> !accepts(
            ParameterKind::Continuous(o),
            ParameterValue::Continuous(v),
        ),
        !is_nan(v) && !is_nan(o.max_bits) && rank(o.max_bits) < rank(v) ==> !accepts(
            ParameterKind::Continuous(o),
            ParameterValue::Continuous(v),
        ),
        !is_nan(v) && !is_nan(o.min_bits) && !is_nan(o.max_bits) ==> (accepts(
            ParameterKind::Continuous(o),
            ParameterValue::Continuous(v),
        ) <==> rank(o.min_bits) <= rank(v) <= rank(o.max_bits)),
{
}

/// The position of the first definition of `defs` with identifier `id`, if any.
pub open spec fn definition_position(defs: Seq<ParameterDefinition>, id: Seq<char>) -> Option<int> {
    if exists|i: int| 0 <= i < defs.len() && defs[i].id@ == id {
        Some(
            choose|i: int|
                0 <= i < defs.len() && defs[i].id@ == id && forall|j: int| 0 <= j < i ==> defs[j].id@ != id,
        )
    } else {
        None
    }
}

/// The first definition of `defs` with identifier `id`, if any.
pub open spec fn definition_with_id(defs: Seq<ParameterDefinition>, id: Seq<char>) -> Option<ParameterDefinition> {
    match definition_position(defs, id) {
        Some(i) => Some(defs[i]),
        None => None,
    }
}

/// The parameters of a plugin, in order.
#[derive(Debug)]
pub struct ParameterLayout {
    parameters: Vec<ParameterDefinition>,
}

impl ParameterLayout {
    /// The definitions, in order.
    pub closed spec fn definitions(&self) -> Seq<ParameterDefinition> {
        self.parameters@
    }

    /// A layout of the given definitions.
    pub fn new(parameters: Vec<ParameterDefinition>) -> (l: Self)
        ensures
            l.definitions() == parameters@,
    {
        ParameterLayout { parameters }
    }

    /// The definitions, in order.
    pub fn parameters(&self) -> (r: &[ParameterDefinition])
        ensures
            r@ == self.definitions(),
    {
        self.parameters.as_slice()
    }

    /// The first definition with identifier `id`, if any.
    pub fn find(&self, id: &ParameterId) -> (r: Option<&ParameterDefinition>)
        ensures
            match r {
                Some(d) => definition_with_id(self.definitions(), id@) == Some(*d),
                None => definition_with_id(self.definitions(), id@) is None,
            },
    {
        let mut i: usize = 0;
        while i < self.parameters.len()
            invariant
                i <= self.parameters@.len(),
                forall|j: int| 0 <= j < i ==> self.parameters@[j].id@ != id@,
            decreases self.parameters@.len() - i,
        {
            if self.parameters[i].id == *id {
                proof {
                    let w = i as int;
                    let defs = self.parameters@;
                    assert(0 <= w < defs.len() && defs[w].id@ == id@);
                    let k = choose|k: int|
                        0 <= k < defs.len() && defs[k].id@ == id@ && forall|j: int| 0 <= j < k ==> defs[j].id@ != id@;
                    if k > w {
                        assert(defs[w].id@ != id@);
                    }
                    assert(k == w);
                }
                return Some(&self.parameters[i]);
            }
            i += 1;
        }
        None
    }
}

impl Clone for ParameterLayout {
    /// A copy of the layout: the same definitions, copied, in the same order.
    fn clone(&self) -> (c: Self)
        ensures
            definitions_match(c.definitions(), self.definitions()),
    {
        let mut parameters: Vec<ParameterDefinition> = Vec::new();
        let mut i: usize = 0;
        while i < self.parameters.len()
            invariant
                i <= self.parameters@.len(),
                parameters@.len() == i,
                forall|k: int| 0 <= k < i ==> definition_matches(#[trigger] parameters@[k], self.parameters@[k]),
            decreases self.parameters@.len() - i,
        {
            parameters.push(self.parameters[i].clone());
            i += 1;
        }
        ParameterLayout { parameters }
    }
}

/// The map from identifier to value that the entries `entries` describe.
pub open spec fn entries_map(entries: Seq<(ParameterId, ParameterValue)>) -> Map<Seq<char>, ParameterValue>
    decreases entries.len(),
{
    if entries.len() == 0 {
        Map::empty()
    } else {
        entries_map(entries.drop_last()).insert(entries.last().0@, entries.last().1)
    }
}

/// No identifier occurs twice among the entries.
pub open spec fn keys_distinct(entries: Seq<(ParameterId, ParameterValue)>) -> bool {
    forall|i: int, j: int| 0 <= i < j < entries.len() ==> entries[i].0@ != entries[j].0@
}

/// The starting values of a layout's parameters: each identifier takes the default
/// of its last definition.
pub open spec fn defaults_map(defs: Seq<ParameterDefinition>) -> Map<Seq<char>, ParameterValue>
    decreases defs.len(),
{
    if defs.len() == 0 {
        Map::empty()
    } else {
        defaults_map(defs.drop_last()).insert(defs.last().id@, default_of(defs.last().kind))
    }
}

proof fn lemma_entries_map_index(entries: Seq<(ParameterId, ParameterValue)>, i: int)
    requires
        keys_distinct(entries),
        0 <= i < entries.len(),
    ensures
        entries_map(entries).contains_key(entries[i].0@),
        entries_map(entries)[entries[i].0@] == entries[i].1,
    decreases entries.len(),
{
    if i < entries.len() - 1 {
        let rest = entries.drop_last();
        assert(rest[i] == entries[i]);
        lemma_entries_map_index(rest, i);
        assert(entries.last().0@ != entries[i].0@);
    }
}

proof fn lemma_entries_map_absent(entries: Seq<(ParameterId, ParameterValue)>, key: Seq<char>)
    requires
        forall|i: int| 0 <= i < entries.len() ==> entries[i].0@ != key,
    ensures
        !entries_map(entries).contains_key(key),
    decreases entries.len(),
{
    if entries.len() > 0 {
        let rest = entries.drop_last();
        assert forall|i: int| 0 <= i < rest.len() implies rest[i].0@ != key by {
            assert(rest[i] == entries[i]);
        }
        lemma_entries_map_absent(rest, key);
        assert(entries.last() == entries[entries.len() - 1]);
    }
}

proof fn lemma_entries_map_update(
    entries: Seq<(ParameterId, ParameterValue)>,
    i: int,
    entry: (ParameterId, ParameterValue),
)
    requires
        keys_distinct(entries),
        0 <= i < entries.len(),
        entries[i].0@ == entry.0@,
    ensures
        entries_map(entries.update(i, entry)) == entries_map(entries).insert(entry.0@, entry.1),
        keys_distinct(entries.update(i, entry)),
    decreases entries.len(),
{
    let updated = entries.update(i, entry);
    if i == entries.len() - 1 {
        assert(updated.drop_last() =~= entries.drop_last());
        assert(entries_map(updated) =~= entries_map(entries).insert(entry.0@, entry.1));
    } else {
        let rest = entries.drop_last();
        assert(rest[i] == entries[i]);
        assert forall|a: int, b: int| 0 <= a < b < rest.len() implies rest[a].0@ != rest[b].0@ by {
            assert(rest[a] == entries[a]);
            assert(rest[b] == entries[b]);
        }
        lemma_entries_map_update(rest, i, entry);
        assert(updated.drop_last() =~= rest.update(i, entry));
        assert(updated.last() == entries.last());
        assert(entries.last().0@ != entries[i].0@);
        assert(entries_map(updated) =~= entries_map(entries).insert(entry.0@, entry.1));
    }
    assert forall|a: int, b: int| 0 <= a < b < updated.len() implies updated[a].0@ != updated[b].0@ by {
        assert(entries[a].0@ != entries[b].0@);
    }
}

/// Puts `value` for `id` into the entries: replaces the entry of `id` when there is
/// one, else appends one.
fn put_entry(entries: &mut Vec<(ParameterId, ParameterValue)>, id: ParameterId, value: ParameterValue)
    requires
        keys_distinct(old(entries)@),
    ensures
        keys_distinct(final(entries)@),
        entries_map(final(entries)@) == entries_map(old(entries)@).insert(id@, value),
{
    let mut i: usize = 0;
    while i < entries.len()
        invariant
            entries@ == old(entries)@,
            keys_distinct(entries@),
            i <= entries@.len(),
            forall|j: int| 0 <= j < i ==> entries@[j].0@ != id@,
        decreases entries@.len() - i,
    {
        if entries[i].0 == id {
            proof {
                lemma_entries_map_update(entries@, i as int, (id, value));
            }
            entries.set(i, (id, value));
            return;
        }
        i += 1;
    }
    proof {
        let e = entries@;
        assert forall|a: int, b: int| 0 <= a < b < e.push((id, value)).len() implies e.push((id, value))[a].0@
            != e.push((id, value))[b].0@ by {
            if b == e.len() {
                assert(e.push((id, value))[a] == e[a]);
            } else {
                assert(e.push((id, value))[a] == e[a]);
                assert(e.push((id, value))[b] == e[b]);
            }
        }
        assert(e.push((id, value)).drop_last() =~= e);
    }
    entries.push((id, value));
}

/// Entries with the same identifiers (by text) and values, position by position.
pub open spec fn same_entries(a: Seq<(ParameterId, ParameterValue)>, b: Seq<(ParameterId, ParameterValue)>) -> bool {
    &&& a.len() == b.len()
    &&& forall|i: int| 0 <= i < a.len() ==> (#[trigger] a[i]).0@ == b[i].0@ && a[i].1 == b[i].1
}

proof fn lemma_same_entries_map(a: Seq<(ParameterId, ParameterValue)>, b: Seq<(ParameterId, ParameterValue)>)
    requires
        same_entries(a, b),
    ensures
        entries_map(a) == entries_map(b),
        keys_distinct(a) ==> keys_distinct(b),
    decreases a.len(),
{
    if a.len() > 0 {
        let (ra, rb) = (a.drop_last(), b.drop_last());
        assert forall|i: int| 0 <= i < ra.len() implies (#[trigger] ra[i]).0@ == rb[i].0@ && ra[i].1 == rb[i].1 by {
            assert(ra[i] == a[i]);
            assert(rb[i] == b[i]);
        }
        lemma_same_entries_map(ra, rb);
        assert(a.last() == a[a.len() - 1]);
    }
    if keys_distinct(a) {
        assert forall|i: int, j: int| 0 <= i < j < b.len() implies b[i].0@ != b[j].0@ by {
            assert(a[i].0@ == b[i].0@);
            assert(a[j].0@ == b[j].0@);
        }
    }
}

fn clone_entries(entries: &Vec<(ParameterId, ParameterValue)>) -> (c: Vec<(ParameterId, ParameterValue)>)
    ensures
        same_entries(entries@, c@),
{
    let mut c: Vec<(ParameterId, ParameterValue)> = Vec::new();
    let mut i: usize = 0;
    while i < entries.len()
        invariant
            i <= entries@.len(),
            c@.len() == i,
            forall|k: int| 0 <= k < i ==> (#[trigger] entries@[k]).0@ == c@[k].0@ && entries@[k].1 == c@[k].1,
        decreases entries@.len() - i,
    {
        let entry = &entries[i];
        c.push((entry.0.clone(), entry.1));
        i += 1;
    }
    c
}

/// The current values of a plugin's parameters, with the layout they follow.
#[derive(Debug)]
pub struct ParameterSet {
    layout: ParameterLayout,
    values: Vec<(ParameterId, ParameterValue)>,
}

impl ParameterSet {
    /// The layout the values follow.
    pub closed spec fn layout_spec(&self) -> ParameterLayout {
        self.layout
    }

    /// The current value of each parameter, by identifier.
    pub closed spec fn view(&self) -> Map<Seq<char>, ParameterValue> {
        entries_map(self.values@)
    }

    /// Each identifier has one value.
    #[verifier::type_invariant]
    spec fn well_formed(&self) -> bool {
        keys_distinct(self.values@)
    }

    /// The layout's parameters, each at the default of its kind (the last
    /// definition of an identifier decides).
    pub fn new(layout: ParameterLayout) -> (s: Self)
        ensures
            s.layout_spec() == layout,
            s@ == defaults_map(layout.definitions()),
    {
        let mut values: Vec<(ParameterId, ParameterValue)> = Vec::new();
        let ghost defs = layout.definitions();
        let params = layout.parameters();
        let mut k: usize = 0;
        while k < params.len()
            invariant
                params@ == defs,
                k <= defs.len(),
                keys_distinct(values@),
                entries_map(values@) == defaults_map(defs.take(k as int)),
            decreases defs.len() - k,
        {
            let parameter = &params[k];
            proof {
                assert(defs.take(k + 1).drop_last() =~= defs.take(k as int));
                assert(defs.take(k + 1).last() == *parameter);
            }
            put_entry(&mut values, parameter.id.clone(), parameter.kind.default_value());
            k += 1;
        }
        proof {
            assert(defs.take(defs.len() as int) =~= defs);
        }
        ParameterSet { layout, values }
    }

    /// The layout the values follow.
    pub fn layout(&self) -> (l: &ParameterLayout)
        ensures
            *l == self.layout_spec(),
    {
        &self.layout
    }

    /// The current value of parameter `id`, if it has one.
    pub fn get(&self, id: &ParameterId) -> (r: Option<&ParameterValue>)
        ensures
            match r {
                Some(v) => self@.contains_key(id@) && self@[id@] == *v,
                None => !self@.contains_key(id@),
            },
    {
        proof {
            use_type_invariant(self);
        }
        let mut i: usize = 0;
        while i < self.values.len()
            invariant
                keys_distinct(self.values@),
                i <= self.values@.len(),
                forall|j: int| 0 <= j < i ==> self.values@[j].0@ != id@,
            decreases self.values@.len() - i,
        {
            if self.values[i].0 == *id {
                proof {
                    lemma_entries_map_index(self.values@, i as int);
                }
                return Some(&self.values[i].1);
            }
            i += 1;
        }
        proof {
            lemma_entries_map_absent(self.values@, id@);
        }
        None
    }

    /// Sets parameter `id` to `value`: refused with `UnknownParameter` when the layout
    /// does not define `id`, and with the error of `ParameterKind::validate` when the
    /// first definition of `id` does not accept the value; the values are then left
    /// as they were.
    pub fn set(&mut self, id: &ParameterId, value: ParameterValue) -> (r: Result<(), PluginParameterError>)
        ensures
            final(self).layout_spec() == old(self).layout_spec(),
            match definition_with_id(old(self).layout_spec().definitions(), id@) {
                None => (r matches Err(PluginParameterError::UnknownParameter(e)) && e@ == id@) && final(self)@
                    == old(self)@,
                Some(d) => if accepts(d.kind, value) {
                    r is Ok && final(self)@ == old(self)@.insert(id@, value)
                } else {
                    (r matches Err(e) && refusal(e, d.kind, id@, value)) && final(self)@ == old(self)@
                },
            },
    {
        let definition = match self.layout.find(id) {
            Some(d) => d,
            None => {
                return Err(PluginParameterError::UnknownParameter(id.clone()));
            },
        };
        match definition.kind.validate(id, &value) {
            Ok(()) => {},
            Err(e) => {
                return Err(e);
            },
        }
        proof {
            use_type_invariant(&*self);
        }
        let mut values: Vec<(ParameterId, ParameterValue)> = Vec::new();
        std::mem::swap(&mut values, &mut self.values);
        put_entry(&mut values, id.clone(), value);
        self.values = values;
        Ok(())
    }

    /// The entries, each identifier with its value, in the order the identifiers
    /// first got a value.
    pub fn iter(&self) -> (r: &[(ParameterId, ParameterValue)])
        ensures
            entries_map(r@) == self@,
            keys_distinct(r@),
    {
        proof {
            use_type_invariant(self);
        }
        self.values.as_slice()
    }
}

impl Clone for ParameterSet {
    fn clone(&self) -> (c: Self)
        ensures
            c@ == self@,
            definitions_match(c.layout_spec().definitions(), self.layout_spec().definitions()),
    {
        proof {
            use_type_invariant(self);
        }
        let values = clone_entries(&self.values);
        proof {
            lemma_same_entries_map(self.values@, values@);
        }
        ParameterSet { layout: self.layout.clone(), values }
    }
}

/// After a successful `ParameterSet::set`, `get` of the same identifier gives the
/// stored value, and every other identifier keeps the value it had.
pub proof fn law_set_then_get(
    before: ParameterSet,
    after: ParameterSet,
    id: ParameterId,
    value: ParameterValue,
    other: ParameterId,
)
    requires
        after@ == before@.insert(id@, value),
    ensures
        after@.contains_key(id@),
        after@[id@] == value,
        other@ != id@ ==> after@.contains_key(other@) == before@.contains_key(other@),
        other@ != id@ && before@.contains_key(other@) ==> after@[other@] == before@[other@],
{
}

/// Why a parameter could not be set.
#[derive(Debug)]
pub enum PluginParameterError {
    UnknownParameter(ParameterId),
    WrongType { id: ParameterId, expected: &'static str, actual: &'static str },
    /// Bounds and value are bit patterns of `f32` values.
    OutOfRange { id: ParameterId, min_bits: u32, max_bits: u32, value_bits: u32 },
    InvalidChoice { id: ParameterId, index: usize, count: usize },
}

} // verus!
