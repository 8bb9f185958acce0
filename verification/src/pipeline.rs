use vstd::prelude::*;
use vstd::string::*;
use crate::error::WhisperCatError;
use crate::time::now_utc_millis;
use crate::text::dec_digits;

verus! {

// ---------- identifiers ----------

/// Identifier of a processing unit or pipeline: the 128 bits of a UUID.
#[derive(Clone, Copy, Debug, PartialEq, Eq, Hash, Structural)]
pub struct UnitId {
    pub value: u128,
}

impl UnitId {
    /// An identifier with a chosen value, for stores and tests that need
    /// reproducible ids.
    pub fn from_value(value: u128) -> (r: UnitId)
        ensures
            r.value == value,
    {
        UnitId { value }
    }

    /// Relies on uuid::Uuid::new_v4 and Uuid::as_u128: a randomly drawn
    /// identifier.  Nothing is promised of the value.
    #[verifier::external_body]
    pub fn fresh() -> UnitId {
        UnitId { value: uuid::Uuid::new_v4().as_u128() }
    }
}

// ---------- the unit model ----------

#[derive(Clone, Copy, Debug, PartialEq, Eq, Structural)]
pub enum Provider {
    OpenAI,
}

/// The actual unit configuration (Prompt or TextReplacement).
#[derive(Debug)]
pub enum UnitType {
    Prompt {
        provider: Provider,
        model: String,
        system_prompt: String,
        user_prompt_template: String,
    },
    TextReplacement {
        find: String,
        replace: String,
        regex: bool,
        case_sensitive: bool,
    },
}

impl Clone for UnitType {
    fn clone(&self) -> (r: Self)
        ensures
            r == *self,
    {
        match self {
            UnitType::Prompt { provider, model, system_prompt, user_prompt_template } => {
                UnitType::Prompt {
                    provider: *provider,
                    model: model.clone(),
                    system_prompt: system_prompt.clone(),
                    user_prompt_template: user_prompt_template.clone(),
                }
            },
            UnitType::TextReplacement { find, replace, regex, case_sensitive } => {
                UnitType::TextReplacement {
                    find: find.clone(),
                    replace: replace.clone(),
                    regex: *regex,
                    case_sensitive: *case_sensitive,
                }
            },
        }
    }
}

/// A standalone processing unit that can be reused across multiple pipelines.
#[derive(Debug)]
pub struct ProcessingUnit {
    pub id: UnitId,
    pub name: String,
    pub description: Option<String>,
    pub unit_type: UnitType,
    pub created_at: i64,
    pub updated_at: i64,
}

impl Clone for ProcessingUnit {
    fn clone(&self) -> (r: Self)
        ensures
            r == *self,
    {
        ProcessingUnit {
            id: self.id,
            name: self.name.clone(),
            description: clone_opt_string(&self.description),
            unit_type: self.unit_type.clone(),
            created_at: self.created_at,
            updated_at: self.updated_at,
        }
    }
}

/// A copy of an optional string, equal to the original.
pub fn clone_opt_string(s: &Option<String>) -> (r: Option<String>)
    ensures
        r == *s,
{
    match s {
        Some(v) => Some(v.clone()),
        None => None,
    }
}

impl ProcessingUnit {
    /// A fresh unit: random id, the given name and configuration, no
    /// description, and both timestamps taken from the same clock reading.
    pub fn new(name: String, unit_type: UnitType) -> (r: Self)
        ensures
            r.name == name,
            r.description is None,
            r.unit_type == unit_type,
            r.created_at == r.updated_at,
    {
        let now = now_utc_millis();
        ProcessingUnit {
            id: UnitId::fresh(),
            name,
            description: None,
            unit_type,
            created_at: now,
            updated_at: now,
        }
    }
}

/// Reference to a ProcessingUnit within a pipeline.
#[derive(Clone, Copy, Debug, PartialEq, Eq, Structural)]
pub struct PipelineUnitReference {
    pub unit_id: UnitId,
    pub enabled: bool,
}

impl PipelineUnitReference {
    pub fn new(unit_id: UnitId) -> (r: Self)
        ensures
            r.unit_id == unit_id,
            r.enabled,
    {
        PipelineUnitReference { unit_id, enabled: true }
    }
}

// ---------- legacy inline units ----------

/// Legacy inline unit kept for backward compatibility; the runtime
/// representation is the reference-based model, and `to_processing_unit`
/// is the one-time import path.
#[derive(Debug)]
pub enum Unit {
    Prompt {
        id: UnitId,
        name: String,
        provider: Provider,
        model: String,
        system_prompt: String,
        user_prompt_template: String,
    },
    TextReplacement {
        id: UnitId,
        name: String,
        find: String,
        replace: String,
        regex: bool,
        case_sensitive: bool,
    },
}

impl Clone for Unit {
    fn clone(&self) -> (r: Self)
        ensures
            r == *self,
    {
        match self {
            Unit::Prompt { id, name, provider, model, system_prompt, user_prompt_template } => {
                Unit::Prompt {
                    id: *id,
                    name: name.clone(),
                    provider: *provider,
                    model: model.clone(),
                    system_prompt: system_prompt.clone(),
                    user_prompt_template: user_prompt_template.clone(),
                }
            },
            Unit::TextReplacement { id, name, find, replace, regex, case_sensitive } => {
                Unit::TextReplacement {
                    id: *id,
                    name: name.clone(),
                    find: find.clone(),
                    replace: replace.clone(),
                    regex: *regex,
                    case_sensitive: *case_sensitive,
                }
            },
        }
    }
}

/// The name field of a legacy unit.
pub open spec fn unit_name_spec(u: Unit) -> Seq<char> {
    match u {
        Unit::Prompt { name, .. } => name@,
        Unit::TextReplacement { name, .. } => name@,
    }
}

/// The id field of a legacy unit.
pub open spec fn unit_id_spec(u: Unit) -> UnitId {
    match u {
        Unit::Prompt { id, .. } => id,
        Unit::TextReplacement { id, .. } => id,
    }
}

/// The configuration a legacy unit carries, as the reference model's
/// `UnitType`.
pub open spec fn unit_type_of_legacy(u: Unit) -> UnitType {
    match u {
        Unit::Prompt { provider, model, system_prompt, user_prompt_template, .. } => {
            UnitType::Prompt { provider, model, system_prompt, user_prompt_template }
        },
        Unit::TextReplacement { find, replace, regex, case_sensitive, .. } => {
            UnitType::TextReplacement { find, replace, regex, case_sensitive }
        },
    }
}

impl Unit {
    pub fn name(&self) -> (r: &String)
        ensures
            r@ == unit_name_spec(*self),
    {
        match self {
            Unit::Prompt { name, .. } => name,
            Unit::TextReplacement { name, .. } => name,
        }
    }

    pub fn id(&self) -> (r: UnitId)
        ensures
            r == unit_id_spec(*self),
    {
        match self {
            Unit::Prompt { id, .. } => *id,
            Unit::TextReplacement { id, .. } => *id,
        }
    }

    /// Converts a legacy inline unit to a ProcessingUnit, keeping id, name
    /// and configuration; both timestamps come from one clock reading.
    pub fn to_processing_unit(self) -> (r: ProcessingUnit)
        ensures
            r.id == unit_id_spec(self),
            r.name@ == unit_name_spec(self),
            r.description is None,
            r.unit_type == unit_type_of_legacy(self),
            r.created_at == r.updated_at,
    {
        let now = now_utc_millis();
        match self {
            Unit::Prompt { id, name, provider, model, system_prompt, user_prompt_template } => {
                ProcessingUnit {
                    id,
                    name,
                    description: None,
                    unit_type: UnitType::Prompt { provider, model, system_prompt, user_prompt_template },
                    created_at: now,
                    updated_at: now,
                }
            },
            Unit::TextReplacement { id, name, find, replace, regex, case_sensitive } => {
                ProcessingUnit {
                    id,
                    name,
                    description: None,
                    unit_type: UnitType::TextReplacement { find, replace, regex, case_sensitive },
                    created_at: now,
                    updated_at: now,
                }
            },
        }
    }
}

/// Migrates a legacy inline unit list to the reference model, in order,
/// keeping each unit's id, name and configuration.
pub fn migrate_units(units: &Vec<Unit>) -> (r: Vec<ProcessingUnit>)
    ensures
        r@.len() == units@.len(),
        forall|i: int|
            0 <= i < units@.len() ==> {
                let m = #[trigger] r@[i];
                &&& m.id == unit_id_spec(units@[i])
                &&& m.name@ == unit_name_spec(units@[i])
                &&& m.unit_type == unit_type_of_legacy(units@[i])
                &&& m.description is None
            },
{
    let mut out: Vec<ProcessingUnit> = Vec::new();
    let mut i: usize = 0;
    while i < units.len()
        invariant
            i <= units@.len(),
            out@.len() == i,
            forall|j: int|
                0 <= j < i ==> {
                    let m = #[trigger] out@[j];
                    &&& m.id == unit_id_spec(units@[j])
                    &&& m.name@ == unit_name_spec(units@[j])
                    &&& m.unit_type == unit_type_of_legacy(units@[j])
                    &&& m.description is None
                },
        decreases units@.len() - i,
    {
        let migrated = units[i].clone().to_processing_unit();
        out.push(migrated);
        i = i + 1;
    }
    out
}

// ---------- pipelines ----------

#[derive(Debug)]
pub struct Pipeline {
    pub id: UnitId,
    pub name: String,
    pub description: Option<String>,
    pub enabled: bool,
    pub unit_refs: Vec<PipelineUnitReference>,
    pub units: Vec<Unit>,
    pub created_at: i64,
    pub updated_at: i64,
}

impl Clone for Pipeline {
    fn clone(&self) -> (r: Self)
        ensures
            r.id == self.id,
            r.name == self.name,
            r.description == self.description,
            r.enabled == self.enabled,
            r.unit_refs@ == self.unit_refs@,
            r.units@ == self.units@,
            r.created_at == self.created_at,
            r.updated_at == self.updated_at,
    {
        Pipeline {
            id: self.id,
            name: self.name.clone(),
            description: clone_opt_string(&self.description),
            enabled: self.enabled,
            unit_refs: clone_unit_refs(&self.unit_refs),
            units: clone_units(&self.units),
            created_at: self.created_at,
            updated_at: self.updated_at,
        }
    }
}

/// A copy of a reference list, equal to the original.
fn clone_unit_refs(v: &Vec<PipelineUnitReference>) -> (r: Vec<PipelineUnitReference>)
    ensures
        r@ == v@,
{
    let mut out: Vec<PipelineUnitReference> = Vec::new();
    let mut i: usize = 0;
    while i < v.len()
        invariant
            i <= v@.len(),
            out@ == v@.take(i as int),
        decreases v@.len() - i,
    {
        out.push(v[i]);
        proof {
            assert(v@.take(i + 1) =~= v@.take(i as int) + seq![v@[i as int]]);
        }
        i = i + 1;
    }
    proof {
        assert(v@.take(v@.len() as int) =~= v@);
    }
    out
}

/// A copy of a legacy unit list, equal to the original.
fn clone_units(v: &Vec<Unit>) -> (r: Vec<Unit>)
    ensures
        r@ == v@,
{
    let mut out: Vec<Unit> = Vec::new();
    let mut i: usize = 0;
    while i < v.len()
        invariant
            i <= v@.len(),
            out@ == v@.take(i as int),
        decreases v@.len() - i,
    {
        out.push(v[i].clone());
        proof {
            assert(v@.take(i + 1) =~= v@.take(i as int) + seq![v@[i as int]]);
        }
        i = i + 1;
    }
    proof {
        assert(v@.take(v@.len() as int) =~= v@);
    }
    out
}

impl Pipeline {
    /// A fresh, enabled, empty pipeline with a random id; both timestamps
    /// come from one clock reading.
    pub fn new(name: String) -> (r: Self)
        ensures
            r.name == name,
            r.description is None,
            r.enabled,
            r.unit_refs@ == Seq::<PipelineUnitReference>::empty(),
            r.units@ == Seq::<Unit>::empty(),
            r.created_at == r.updated_at,
    {
        let now = now_utc_millis();
        Pipeline {
            id: UnitId::fresh(),
            name,
            description: None,
            enabled: true,
            unit_refs: Vec::new(),
            units: Vec::new(),
            created_at: now,
            updated_at: now,
        }
    }

    /// Appends an enabled reference to the given unit and touches the
    /// update timestamp.
    pub fn add_unit_ref(&mut self, unit_id: UnitId)
        ensures
            final(self).unit_refs@ == old(self).unit_refs@
                + seq![PipelineUnitReference { unit_id, enabled: true }],
            final(self).units@ == old(self).units@,
            final(self).id == old(self).id,
            final(self).name == old(self).name,
            final(self).description == old(self).description,
            final(self).enabled == old(self).enabled,
            final(self).created_at == old(self).created_at,
    {
        self.unit_refs.push(PipelineUnitReference::new(unit_id));
        self.updated_at = now_utc_millis();
    }

    /// Appends a reference with a chosen enabled flag and touches the
    /// update timestamp.
    pub fn add_unit_ref_with_state(&mut self, unit_id: UnitId, enabled: bool)
        ensures
            final(self).unit_refs@ == old(self).unit_refs@
                + seq![PipelineUnitReference { unit_id, enabled }],
            final(self).units@ == old(self).units@,
            final(self).id == old(self).id,
            final(self).name == old(self).name,
            final(self).description == old(self).description,
            final(self).enabled == old(self).enabled,
            final(self).created_at == old(self).created_at,
    {
        self.unit_refs.push(PipelineUnitReference { unit_id, enabled });
        self.updated_at = now_utc_millis();
    }

    /// Appends a legacy inline unit and touches the update timestamp.
    pub fn add_unit(&mut self, unit: Unit)
        ensures
            final(self).units@ == old(self).units@ + seq![unit],
            final(self).unit_refs@ == old(self).unit_refs@,
            final(self).id == old(self).id,
            final(self).name == old(self).name,
            final(self).description == old(self).description,
            final(self).enabled == old(self).enabled,
            final(self).created_at == old(self).created_at,
    {
        self.units.push(unit);
        self.updated_at = now_utc_millis();
    }
}

// ---------- execution results ----------

/// A batch of units that can potentially be optimized into a single
/// external call.
#[derive(Debug)]
pub struct UnitBatch {
    pub units: Vec<ProcessingUnit>,
    pub optimizable: bool,
    pub provider: Option<Provider>,
    pub model: Option<String>,
}

impl Clone for UnitBatch {
    fn clone(&self) -> (r: Self)
        ensures
            r.units@ == self.units@,
            r.optimizable == self.optimizable,
            r.provider == self.provider,
            r.model == self.model,
    {
        UnitBatch {
            units: clone_processing_units(&self.units),
            optimizable: self.optimizable,
            provider: self.provider,
            model: clone_opt_string(&self.model),
        }
    }
}

/// A copy of a unit list, equal to the original.
pub fn clone_processing_units(v: &Vec<ProcessingUnit>) -> (r: Vec<ProcessingUnit>)
    ensures
        r@ == v@,
{
    let mut out: Vec<ProcessingUnit> = Vec::new();
    let mut i: usize = 0;
    while i < v.len()
        invariant
            i <= v@.len(),
            out@ == v@.take(i as int),
        decreases v@.len() - i,
    {
        out.push(v[i].clone());
        proof {
            assert(v@.take(i + 1) =~= v@.take(i as int) + seq![v@[i as int]]);
        }
        i = i + 1;
    }
    proof {
        assert(v@.take(v@.len() as int) =~= v@);
    }
    out
}

/// One executed step: what went in, what came out, and whether the step
/// was part of an optimized chain.
#[derive(Debug)]
pub struct ExecutionLogEntry {
    pub timestamp: i64,
    pub unit_name: String,
    pub input: String,
    pub output: String,
    pub duration_ms: u64,
    pub optimized: bool,
}

impl Clone for ExecutionLogEntry {
    fn clone(&self) -> (r: Self)
        ensures
            r == *self,
    {
        ExecutionLogEntry {
            timestamp: self.timestamp,
            unit_name: self.unit_name.clone(),
            input: self.input.clone(),
            output: self.output.clone(),
            duration_ms: self.duration_ms,
            optimized: self.optimized,
        }
    }
}

/// The outcome of a completed pipeline run.
#[derive(Debug)]
pub struct ExecutionResult {
    pub output: String,
    pub log_entries: Vec<ExecutionLogEntry>,
    pub warnings: Vec<String>,
    pub total_duration_ms: u64,
}

/// A copy of a log, equal to the original.
pub fn clone_log(v: &Vec<ExecutionLogEntry>) -> (r: Vec<ExecutionLogEntry>)
    ensures
        r@ == v@,
{
    let mut out: Vec<ExecutionLogEntry> = Vec::new();
    let mut i: usize = 0;
    while i < v.len()
        invariant
            i <= v@.len(),
            out@ == v@.take(i as int),
        decreases v@.len() - i,
    {
        out.push(v[i].clone());
        proof {
            assert(v@.take(i + 1) =~= v@.take(i as int) + seq![v@[i as int]]);
        }
        i = i + 1;
    }
    proof {
        assert(v@.take(v@.len() as int) =~= v@);
    }
    out
}

/// A copy of a string list, equal to the original.
pub fn clone_strings(v: &Vec<String>) -> (r: Vec<String>)
    ensures
        r@ == v@,
{
    let mut out: Vec<String> = Vec::new();
    let mut i: usize = 0;
    while i < v.len()
        invariant
            i <= v@.len(),
            out@ == v@.take(i as int),
        decreases v@.len() - i,
    {
        out.push(v[i].clone());
        proof {
            assert(v@.take(i + 1) =~= v@.take(i as int) + seq![v@[i as int]]);
        }
        i = i + 1;
    }
    proof {
        assert(v@.take(v@.len() as int) =~= v@);
    }
    out
}

// ---------- batch planning ----------

pub open spec fn is_prompt_unit(u: ProcessingUnit) -> bool {
    u.unit_type is Prompt
}

pub open spec fn unit_provider(u: ProcessingUnit) -> Provider
    recommends
        is_prompt_unit(u),
{
    u.unit_type->provider
}

pub open spec fn unit_model(u: ProcessingUnit) -> Seq<char>
    recommends
        is_prompt_unit(u),
{
    u.unit_type->model@
}

/// The mathematical shape of a batch: its units in order, whether one
/// external call may replace them all, and the shared provider and model of
/// a batch of prompts.
pub struct BatchView {
    pub units: Seq<ProcessingUnit>,
    pub optimizable: bool,
    pub provider: Option<Provider>,
    pub model: Option<Seq<char>>,
}

impl View for UnitBatch {
    type V = BatchView;

    open spec fn view(&self) -> BatchView {
        BatchView {
            units: self.units@,
            optimizable: self.optimizable,
            provider: self.provider,
            model: match self.model {
                Some(m) => Some(m@),
                None => None,
            },
        }
    }
}

/// A flushed run of prompts sharing one (provider, model): optimizable
/// exactly when at least two calls are merged.
pub open spec fn closed_batch(run: Seq<ProcessingUnit>) -> BatchView
    recommends
        run.len() > 0,
{
    BatchView {
        units: run,
        optimizable: run.len() >= 2,
        provider: Some(unit_provider(run[0])),
        model: Some(unit_model(run[0])),
    }
}

/// A text replacement always stands alone, never merged.
pub open spec fn replacement_batch(u: ProcessingUnit) -> BatchView {
    BatchView { units: seq![u], optimizable: false, provider: None, model: None }
}

/// One left-to-right scan over the remaining units, carrying the currently
/// open run of prompts that share one (provider, model).
pub open spec fn plan_rec(units: Seq<ProcessingUnit>, run: Seq<ProcessingUnit>) -> Seq<BatchView>
    decreases units.len(),
{
    if units.len() == 0 {
        if run.len() == 0 {
            Seq::<BatchView>::empty()
        } else {
            seq![closed_batch(run)]
        }
    } else {
        let u = units[0];
        if is_prompt_unit(u) {
            if run.len() == 0 {
                plan_rec(units.skip(1), seq![u])
            } else if unit_provider(u) == unit_provider(run[0]) && unit_model(u) == unit_model(
                run[0],
            ) {
                plan_rec(units.skip(1), run.push(u))
            } else {
                seq![closed_batch(run)] + plan_rec(units.skip(1), seq![u])
            }
        } else {
            if run.len() == 0 {
                seq![replacement_batch(u)] + plan_rec(units.skip(1), Seq::<ProcessingUnit>::empty())
            } else {
                seq![closed_batch(run), replacement_batch(u)] + plan_rec(
                    units.skip(1),
                    Seq::<ProcessingUnit>::empty(),
                )
            }
        }
    }
}

/// The batches the planner forms when optimization is on.
pub open spec fn plan_spec(units: Seq<ProcessingUnit>) -> Seq<BatchView> {
    plan_rec(units, Seq::<ProcessingUnit>::empty())
}

/// With optimization off, every unit is its own singleton batch.
pub open spec fn singleton_plan_spec(units: Seq<ProcessingUnit>) -> Seq<BatchView> {
    units.map_values(
        |u: ProcessingUnit|
            BatchView { units: seq![u], optimizable: false, provider: None, model: None },
    )
}

/// All units of a batch list, concatenated in emitted order.
pub open spec fn batches_units(batches: Seq<BatchView>) -> Seq<ProcessingUnit>
    decreases batches.len(),
{
    if batches.len() == 0 {
        Seq::<ProcessingUnit>::empty()
    } else {
        batches[0].units + batches_units(batches.skip(1))
    }
}

pub proof fn lemma_batches_units_singleton(b: BatchView)
    ensures
        batches_units(seq![b]) == b.units,
{
    assert(seq![b].skip(1) =~= Seq::<BatchView>::empty());
    assert(batches_units(Seq::<BatchView>::empty()) == Seq::<ProcessingUnit>::empty());
    assert(seq![b][0] == b);
    assert(batches_units(seq![b]) == b.units + batches_units(seq![b].skip(1)));
    assert(b.units + Seq::<ProcessingUnit>::empty() =~= b.units);
}

pub proof fn lemma_batches_units_cons(head: Seq<BatchView>, tail: Seq<BatchView>)
    ensures
        batches_units(head + tail) == batches_units(head) + batches_units(tail),
    decreases head.len(),
{
    if head.len() == 0 {
        assert(head + tail =~= tail);
        assert(batches_units(head) + batches_units(tail) =~= batches_units(tail));
    } else {
        assert((head + tail)[0] == head[0]);
        assert((head + tail).skip(1) =~= head.skip(1) + tail);
        lemma_batches_units_cons(head.skip(1), tail);
        assert(batches_units(head + tail)
            =~= batches_units(head) + batches_units(tail));
    }
}

/// Concatenating all batch contents in emitted order reconstructs the
/// planner's input exactly.
pub proof fn lemma_plan_preserves_units(units: Seq<ProcessingUnit>)
    ensures
        batches_units(plan_spec(units)) == units,
{
    lemma_plan_rec_units(units, Seq::<ProcessingUnit>::empty());
    assert(Seq::<ProcessingUnit>::empty() + units =~= units);
}

proof fn lemma_plan_rec_units(units: Seq<ProcessingUnit>, run: Seq<ProcessingUnit>)
    ensures
        batches_units(plan_rec(units, run)) == run + units,
    decreases units.len(),
{
    if units.len() == 0 {
        if run.len() == 0 {
            assert(run + units =~= Seq::<ProcessingUnit>::empty());
        } else {
            lemma_batches_units_singleton(closed_batch(run));
            assert(run + units =~= run);
        }
    } else {
        let u = units[0];
        let rest = units.skip(1);
        assert(run.push(u) =~= run + seq![u]);
        if is_prompt_unit(u) {
            if run.len() == 0 {
                lemma_plan_rec_units(rest, seq![u]);
                assert(seq![u] + rest =~= run + units);
            } else if unit_provider(u) == unit_provider(run[0]) && unit_model(u) == unit_model(
                run[0],
            ) {
                lemma_plan_rec_units(rest, run.push(u));
                assert(run.push(u) + rest =~= run + units);
            } else {
                lemma_plan_rec_units(rest, seq![u]);
                lemma_batches_units_cons(seq![closed_batch(run)], plan_rec(rest, seq![u]));
                lemma_batches_units_singleton(closed_batch(run));
                assert(run + (seq![u] + rest) =~= run + units);
            }
        } else {
            lemma_plan_rec_units(rest, Seq::<ProcessingUnit>::empty());
            if run.len() == 0 {
                lemma_batches_units_cons(
                    seq![replacement_batch(u)],
                    plan_rec(rest, Seq::<ProcessingUnit>::empty()),
                );
                lemma_batches_units_singleton(replacement_batch(u));
                assert(seq![u] + (Seq::<ProcessingUnit>::empty() + rest) =~= run + units);
            } else {
                lemma_batches_units_cons(
                    seq![closed_batch(run), replacement_batch(u)],
                    plan_rec(rest, Seq::<ProcessingUnit>::empty()),
                );
                assert(seq![closed_batch(run), replacement_batch(u)].skip(1)
                    =~= seq![replacement_batch(u)]);
                lemma_batches_units_singleton(replacement_batch(u));
                assert(batches_units(seq![closed_batch(run), replacement_batch(u)])
                    =~= run + seq![u]);
                assert((run + seq![u]) + (Seq::<ProcessingUnit>::empty() + rest) =~= run + units);
            }
        }
    }
}

/// What the planner guarantees of each emitted batch.
pub open spec fn batch_wf(b: BatchView) -> bool {
    &&& b.units.len() >= 1
    &&& (b.optimizable <==> (b.units.len() >= 2 && b.provider is Some))
    &&& (b.provider is Some <==> b.model is Some)
    &&& (b.provider is Some ==> forall|j: int|
        0 <= j < b.units.len() ==> is_prompt_unit(#[trigger] b.units[j])
            && unit_provider(b.units[j]) == b.provider->0
            && unit_model(b.units[j]) == b.model->0)
    &&& (b.provider is None ==> b.units.len() == 1 && !b.optimizable)
}

/// An open run: prompts only, all sharing the first unit's key.
pub open spec fn run_wf(run: Seq<ProcessingUnit>) -> bool {
    forall|j: int|
        0 <= j < run.len() ==> is_prompt_unit(#[trigger] run[j])
            && unit_provider(run[j]) == unit_provider(run[0])
            && unit_model(run[j]) == unit_model(run[0])
}

/// Every batch the planner emits is well formed: nonempty, a text
/// replacement always alone and unoptimized, and a prompt batch marked
/// optimizable exactly when it merges at least two calls of one
/// (provider, model).
/// Two adjacent batches merged from prompt runs share a (provider, model)
/// key.
pub open spec fn same_batch_key(a: BatchView, b: BatchView) -> bool {
    a.provider is Some && b.provider is Some && a.provider == b.provider && a.model == b.model
}

/// Every emitted run is maximal: no two adjacent batches carry the same
/// (provider, model) key, so a run of compatible prompts is never split.
pub proof fn lemma_plan_runs_maximal(units: Seq<ProcessingUnit>)
    ensures
        forall|i: int|
            0 <= i && i + 1 < plan_spec(units).len() ==> !same_batch_key(
                #[trigger] plan_spec(units)[i],
                plan_spec(units)[i + 1],
            ),
{
    lemma_plan_rec_maximal(units, Seq::<ProcessingUnit>::empty());
}

/// The first batch the scan emits from a nonempty open run carries that
/// run's key.
proof fn lemma_plan_rec_head(units: Seq<ProcessingUnit>, run: Seq<ProcessingUnit>)
    requires
        run.len() > 0,
    ensures
        plan_rec(units, run).len() > 0,
        plan_rec(units, run)[0].provider == Some(unit_provider(run[0])),
        plan_rec(units, run)[0].model == Some(unit_model(run[0])),
    decreases units.len(),
{
    if units.len() == 0 {
    } else {
        let u = units[0];
        let rest = units.skip(1);
        if is_prompt_unit(u) {
            if unit_provider(u) == unit_provider(run[0]) && unit_model(u) == unit_model(run[0]) {
                lemma_plan_rec_head(rest, run.push(u));
                assert(run.push(u)[0] == run[0]);
            } else {
                lemma_plan_rec_head(rest, seq![u]);
                assert((seq![closed_batch(run)] + plan_rec(rest, seq![u]))[0]
                    == closed_batch(run));
            }
        } else {
            assert((seq![closed_batch(run), replacement_batch(u)] + plan_rec(
                rest,
                Seq::<ProcessingUnit>::empty(),
            ))[0] == closed_batch(run));
        }
    }
}

proof fn lemma_plan_rec_maximal(units: Seq<ProcessingUnit>, run: Seq<ProcessingUnit>)
    requires
        run_wf(run),
    ensures
        forall|i: int|
            0 <= i && i + 1 < plan_rec(units, run).len() ==> !same_batch_key(
                #[trigger] plan_rec(units, run)[i],
                plan_rec(units, run)[i + 1],
            ),
    decreases units.len(),
{
    lemma_plan_rec_wf(units, run);
    if units.len() == 0 {
    } else {
        let u = units[0];
        let rest = units.skip(1);
        if is_prompt_unit(u) {
            if run.len() == 0 {
                assert(run_wf(seq![u]));
                lemma_plan_rec_maximal(rest, seq![u]);
                assert forall|i: int|
                    0 <= i && i + 1 < plan_rec(units, run).len() implies !same_batch_key(
                    #[trigger] plan_rec(units, run)[i],
                    plan_rec(units, run)[i + 1],
                ) by {
                    assert(plan_rec(units, run)[i] == plan_rec(rest, seq![u])[i]);
                    assert(plan_rec(units, run)[i + 1] == plan_rec(rest, seq![u])[i + 1]);
                }
            } else if unit_provider(u) == unit_provider(run[0]) && unit_model(u) == unit_model(
                run[0],
            ) {
                assert(run_wf(run.push(u)));
                lemma_plan_rec_maximal(rest, run.push(u));
                assert forall|i: int|
                    0 <= i && i + 1 < plan_rec(units, run).len() implies !same_batch_key(
                    #[trigger] plan_rec(units, run)[i],
                    plan_rec(units, run)[i + 1],
                ) by {
                    assert(plan_rec(units, run)[i] == plan_rec(rest, run.push(u))[i]);
                    assert(plan_rec(units, run)[i + 1] == plan_rec(rest, run.push(u))[i + 1]);
                }
            } else {
                assert(run_wf(seq![u]));
                lemma_plan_rec_maximal(rest, seq![u]);
                lemma_plan_rec_head(rest, seq![u]);
                let result = seq![closed_batch(run)] + plan_rec(rest, seq![u]);
                assert forall|i: int|
                    0 <= i && i + 1 < result.len() implies !same_batch_key(
                    #[trigger] result[i],
                    result[i + 1],
                ) by {
                    if i == 0 {
                        assert(result[0] == closed_batch(run));
                        assert(result[1] == plan_rec(rest, seq![u])[0]);
                        assert(seq![u][0] == u);
                    } else {
                        assert(result[i] == plan_rec(rest, seq![u])[i - 1]);
                        assert(result[i + 1] == plan_rec(rest, seq![u])[i]);
                    }
                }
                assert(plan_rec(units, run) == result);
            }
        } else {
            lemma_plan_rec_maximal(rest, Seq::<ProcessingUnit>::empty());
            if run.len() == 0 {
                let result = seq![replacement_batch(u)] + plan_rec(
                    rest,
                    Seq::<ProcessingUnit>::empty(),
                );
                assert forall|i: int|
                    0 <= i && i + 1 < result.len() implies !same_batch_key(
                    #[trigger] result[i],
                    result[i + 1],
                ) by {
                    if i == 0 {
                        assert(result[0] == replacement_batch(u));
                    } else {
                        assert(result[i] == plan_rec(rest, Seq::<ProcessingUnit>::empty())[i - 1]);
                        assert(result[i + 1] == plan_rec(rest, Seq::<ProcessingUnit>::empty())[i]);
                    }
                }
                assert(plan_rec(units, run) == result);
            } else {
                let result = seq![closed_batch(run), replacement_batch(u)] + plan_rec(
                    rest,
                    Seq::<ProcessingUnit>::empty(),
                );
                assert forall|i: int|
                    0 <= i && i + 1 < result.len() implies !same_batch_key(
                    #[trigger] result[i],
                    result[i + 1],
                ) by {
                    if i == 0 {
                        assert(result[1] == replacement_batch(u));
                    } else if i == 1 {
                        assert(result[1] == replacement_batch(u));
                    } else {
                        assert(result[i] == plan_rec(rest, Seq::<ProcessingUnit>::empty())[i - 2]);
                        assert(result[i + 1] == plan_rec(rest, Seq::<ProcessingUnit>::empty())[i
                            - 1]);
                    }
                }
                assert(plan_rec(units, run) == result);
            }
        }
    }
}

pub proof fn lemma_plan_batches_wf(units: Seq<ProcessingUnit>)
    ensures
        forall|i: int|
            0 <= i < plan_spec(units).len() ==> batch_wf(#[trigger] plan_spec(units)[i]),
{
    lemma_plan_rec_wf(units, Seq::<ProcessingUnit>::empty());
}

proof fn lemma_plan_rec_wf(units: Seq<ProcessingUnit>, run: Seq<ProcessingUnit>)
    requires
        run_wf(run),
    ensures
        forall|i: int|
            0 <= i < plan_rec(units, run).len() ==> batch_wf(#[trigger] plan_rec(units, run)[i]),
    decreases units.len(),
{
    if units.len() == 0 {
        if run.len() > 0 {
            assert(batch_wf(closed_batch(run)));
            assert(plan_rec(units, run)[0] == closed_batch(run));
        }
    } else {
        let u = units[0];
        let rest = units.skip(1);
        if is_prompt_unit(u) {
            if run.len() == 0 {
                assert(run_wf(seq![u]));
                lemma_plan_rec_wf(rest, seq![u]);
                assert forall|i: int|
                    0 <= i < plan_rec(units, run).len() implies batch_wf(
                    #[trigger] plan_rec(units, run)[i],
                ) by {
                    assert(plan_rec(units, run)[i] == plan_rec(rest, seq![u])[i]);
                }
            } else if unit_provider(u) == unit_provider(run[0]) && unit_model(u) == unit_model(
                run[0],
            ) {
                assert(run_wf(run.push(u)));
                lemma_plan_rec_wf(rest, run.push(u));
                assert forall|i: int|
                    0 <= i < plan_rec(units, run).len() implies batch_wf(
                    #[trigger] plan_rec(units, run)[i],
                ) by {
                    assert(plan_rec(units, run)[i] == plan_rec(rest, run.push(u))[i]);
                }
            } else {
                assert(run_wf(seq![u]));
                lemma_plan_rec_wf(rest, seq![u]);
                assert(batch_wf(closed_batch(run)));
                let result = seq![closed_batch(run)] + plan_rec(rest, seq![u]);
                assert forall|i: int| 0 <= i < result.len() implies batch_wf(#[trigger] result[i]) by {
                    if i == 0 {
                        assert(result[i] == closed_batch(run));
                    } else {
                        assert(result[i] == plan_rec(rest, seq![u])[i - 1]);
                    }
                }
                assert(plan_rec(units, run) == result);
            }
        } else {
            lemma_plan_rec_wf(rest, Seq::<ProcessingUnit>::empty());
            assert(batch_wf(replacement_batch(u)));
            if run.len() == 0 {
                let result = seq![replacement_batch(u)] + plan_rec(
                    rest,
                    Seq::<ProcessingUnit>::empty(),
                );
                assert forall|i: int| 0 <= i < result.len() implies batch_wf(#[trigger] result[i]) by {
                    if i == 0 {
                        assert(result[i] == replacement_batch(u));
                    } else {
                        assert(result[i] == plan_rec(rest, Seq::<ProcessingUnit>::empty())[i - 1]);
                    }
                }
                assert(plan_rec(units, run) == result);
            } else {
                assert(batch_wf(closed_batch(run)));
                let result = seq![closed_batch(run), replacement_batch(u)] + plan_rec(
                    rest,
                    Seq::<ProcessingUnit>::empty(),
                );
                assert forall|i: int| 0 <= i < result.len() implies batch_wf(#[trigger] result[i]) by {
                    if i == 0 {
                        assert(result[i] == closed_batch(run));
                    } else if i == 1 {
                        assert(result[i] == replacement_batch(u));
                    } else {
                        assert(result[i] == plan_rec(rest, Seq::<ProcessingUnit>::empty())[i - 2]);
                    }
                }
                assert(plan_rec(units, run) == result);
            }
        }
    }
}

// ---------- the executable planner ----------

/// Drives pipeline execution: plans batches and, between external calls,
/// decides every step.  The external completion service itself is reached by
/// the caller, which feeds each response back in.
pub struct PipelineExecutor {
    pub api_key: String,
    pub optimization_enabled: bool,
}

/// Runtime test for `is_prompt_unit`.
pub fn unit_is_prompt(u: &ProcessingUnit) -> (r: bool)
    ensures
        r == is_prompt_unit(*u),
{
    match &u.unit_type {
        UnitType::Prompt { .. } => true,
        UnitType::TextReplacement { .. } => false,
    }
}

/// Do two prompt units share one (provider, model)?
fn same_prompt_key(a: &ProcessingUnit, b: &ProcessingUnit) -> (r: bool)
    requires
        is_prompt_unit(*a),
        is_prompt_unit(*b),
    ensures
        r == (unit_provider(*a) == unit_provider(*b) && unit_model(*a) == unit_model(*b)),
{
    match &a.unit_type {
        UnitType::Prompt { provider, model, .. } => {
            match &b.unit_type {
                UnitType::Prompt { provider: other_provider, model: other_model, .. } => {
                    let same = *provider == *other_provider;
                    same && crate::text::str_eq(model.as_str(), other_model.as_str())
                },
                UnitType::TextReplacement { .. } => false,
            }
        },
        UnitType::TextReplacement { .. } => false,
    }
}

/// Flushes an open run of prompts into one batch, as `closed_batch`
/// describes.
fn close_run(run: Vec<ProcessingUnit>) -> (r: UnitBatch)
    requires
        run@.len() > 0,
        is_prompt_unit(run@[0]),
    ensures
        r@ == closed_batch(run@),
{
    let optimizable = run.len() >= 2;
    let (provider, model) = match &run[0].unit_type {
        UnitType::Prompt { provider, model, .. } => (*provider, model.clone()),
        UnitType::TextReplacement { find, .. } => (Provider::OpenAI, find.clone()),
    };
    UnitBatch { units: run, optimizable, provider: Some(provider), model: Some(model) }
}

/// Wraps one text replacement as its own batch, as `replacement_batch`
/// describes.
fn single_batch(u: &ProcessingUnit) -> (r: UnitBatch)
    ensures
        r@ == replacement_batch(*u),
{
    let mut units: Vec<ProcessingUnit> = Vec::new();
    units.push(u.clone());
    proof {
        assert(units@ =~= seq![*u]);
    }
    UnitBatch { units, optimizable: false, provider: None, model: None }
}

impl PipelineExecutor {
    pub fn new(openai_api_key: String) -> (r: Self)
        ensures
            r.api_key == openai_api_key,
            r.optimization_enabled,
    {
        PipelineExecutor { api_key: openai_api_key, optimization_enabled: true }
    }

    pub fn with_optimization(self, enabled: bool) -> (r: Self)
        ensures
            r.api_key == self.api_key,
            r.optimization_enabled == enabled,
    {
        PipelineExecutor { api_key: self.api_key, optimization_enabled: enabled }
    }

    /// Groups consecutive same-model prompt units into optimizable batches,
    /// exactly as `plan_spec` describes.
    pub fn create_batches(&self, units: &Vec<ProcessingUnit>) -> (r: Vec<UnitBatch>)
        ensures
            r@.map_values(|b: UnitBatch| b@) == plan_spec(units@),
    {
        let mut batches: Vec<UnitBatch> = Vec::new();
        let mut run: Vec<ProcessingUnit> = Vec::new();
        let mut i: usize = 0;
        proof {
            assert(units@.skip(0) =~= units@);
            assert(batches@.map_values(|b: UnitBatch| b@) + plan_rec(units@, run@)
                =~= plan_spec(units@));
        }
        while i < units.len()
            invariant
                i <= units@.len(),
                run@.len() > 0 ==> is_prompt_unit(run@[0]),
                batches@.map_values(|b: UnitBatch| b@) + plan_rec(units@.skip(i as int), run@)
                    == plan_spec(units@),
            decreases units@.len() - i,
        {
            let ghost rest = units@.skip(i as int);
            let ghost oldbatches = batches@;
            let ghost oldrun = run@;
            proof {
                assert(rest[0] == units@[i as int]);
                assert(rest.skip(1) =~= units@.skip(i + 1));
            }
            let u = &units[i];
            if unit_is_prompt(u) {
                if run.len() == 0 {
                    run.push(u.clone());
                    proof {
                        assert(run@ =~= seq![units@[i as int]]);
                        assert(plan_rec(rest, oldrun) == plan_rec(units@.skip(i + 1), run@));
                    }
                } else if same_prompt_key(u, &run[0]) {
                    run.push(u.clone());
                    proof {
                        assert(run@ =~= oldrun.push(units@[i as int]));
                        assert(plan_rec(rest, oldrun) == plan_rec(units@.skip(i + 1), run@));
                    }
                } else {
                    let closed = close_run(run);
                    batches.push(closed);
                    run = Vec::new();
                    run.push(u.clone());
                    proof {
                        assert(run@ =~= seq![units@[i as int]]);
                        assert(batches@.map_values(|b: UnitBatch| b@)
                            =~= oldbatches.map_values(|b: UnitBatch| b@)
                            + seq![closed_batch(oldrun)]);
                        assert(plan_rec(rest, oldrun)
                            == seq![closed_batch(oldrun)] + plan_rec(units@.skip(i + 1), run@));
                        assert(batches@.map_values(|b: UnitBatch| b@)
                            + plan_rec(units@.skip(i + 1), run@)
                            =~= oldbatches.map_values(|b: UnitBatch| b@)
                            + (seq![closed_batch(oldrun)] + plan_rec(units@.skip(i + 1), run@)));
                    }
                }
            } else {
                if run.len() > 0 {
                    let closed = close_run(run);
                    batches.push(closed);
                    run = Vec::new();
                    let tr = single_batch(u);
                    batches.push(tr);
                    proof {
                        assert(run@ =~= Seq::<ProcessingUnit>::empty());
                        assert(batches@.map_values(|b: UnitBatch| b@)
                            =~= oldbatches.map_values(|b: UnitBatch| b@)
                            + seq![closed_batch(oldrun), replacement_batch(units@[i as int])]);
                        assert(plan_rec(rest, oldrun)
                            == seq![closed_batch(oldrun), replacement_batch(units@[i as int])]
                                + plan_rec(units@.skip(i + 1), run@));
                        assert(batches@.map_values(|b: UnitBatch| b@)
                            + plan_rec(units@.skip(i + 1), run@)
                            =~= oldbatches.map_values(|b: UnitBatch| b@)
                            + (seq![closed_batch(oldrun), replacement_batch(units@[i as int])]
                                + plan_rec(units@.skip(i + 1), run@)));
                    }
                } else {
                    let tr = single_batch(u);
                    batches.push(tr);
                    proof {
                        assert(run@ =~= Seq::<ProcessingUnit>::empty());
                        assert(oldrun =~= Seq::<ProcessingUnit>::empty());
                        assert(batches@.map_values(|b: UnitBatch| b@)
                            =~= oldbatches.map_values(|b: UnitBatch| b@)
                            + seq![replacement_batch(units@[i as int])]);
                        assert(plan_rec(rest, oldrun)
                            == seq![replacement_batch(units@[i as int])]
                                + plan_rec(units@.skip(i + 1), run@));
                        assert(batches@.map_values(|b: UnitBatch| b@)
                            + plan_rec(units@.skip(i + 1), run@)
                            =~= oldbatches.map_values(|b: UnitBatch| b@)
                            + (seq![replacement_batch(units@[i as int])]
                                + plan_rec(units@.skip(i + 1), run@)));
                    }
                }
            }
            i = i + 1;
        }
        proof {
            assert(units@.skip(i as int) =~= Seq::<ProcessingUnit>::empty());
        }
        if run.len() > 0 {
            let ghost oldbatches = batches@;
            let ghost oldrun = run@;
            let closed = close_run(run);
            batches.push(closed);
            proof {
                assert(batches@.map_values(|b: UnitBatch| b@)
                    =~= oldbatches.map_values(|b: UnitBatch| b@) + seq![closed_batch(oldrun)]);
                assert(batches@.map_values(|b: UnitBatch| b@) =~= plan_spec(units@));
            }
        } else {
            proof {
                assert(batches@.map_values(|b: UnitBatch| b@)
                    + plan_rec(Seq::<ProcessingUnit>::empty(), run@)
                    =~= batches@.map_values(|b: UnitBatch| b@));
            }
        }
        batches
    }

    /// The no-optimization plan: one singleton, non-optimizable batch per
    /// unit, exactly as `singleton_plan_spec` describes.
    pub fn singleton_batches(&self, units: &Vec<ProcessingUnit>) -> (r: Vec<UnitBatch>)
        ensures
            r@.map_values(|b: UnitBatch| b@) == singleton_plan_spec(units@),
    {
        let mut batches: Vec<UnitBatch> = Vec::new();
        let mut i: usize = 0;
        proof {
            assert(batches@.map_values(|b: UnitBatch| b@)
                =~= singleton_plan_spec(units@.take(0)));
        }
        while i < units.len()
            invariant
                i <= units@.len(),
                batches@.map_values(|b: UnitBatch| b@) == singleton_plan_spec(
                    units@.take(i as int),
                ),
            decreases units@.len() - i,
        {
            let ghost oldbatches = batches@;
            let tr = single_batch(&units[i]);
            batches.push(tr);
            proof {
                assert(batches@.map_values(|b: UnitBatch| b@)
                    =~= oldbatches.map_values(|b: UnitBatch| b@)
                    + seq![replacement_batch(units@[i as int])]);
                assert(units@.take(i + 1) =~= units@.take(i as int).push(units@[i as int]));
                assert(singleton_plan_spec(units@.take(i + 1))
                    =~= singleton_plan_spec(units@.take(i as int))
                    + seq![replacement_batch(units@[i as int])]);
            }
            i = i + 1;
        }
        proof {
            assert(units@.take(units@.len() as int) =~= units@);
        }
        batches
    }

    /// The planner's entry point: batches per `plan_spec` when optimization
    /// is enabled, one singleton batch per unit when it is not.
    pub fn plan(&self, units: &Vec<ProcessingUnit>) -> (r: Vec<UnitBatch>)
        ensures
            self.optimization_enabled ==> r@.map_values(|b: UnitBatch| b@) == plan_spec(units@),
            !self.optimization_enabled ==> r@.map_values(|b: UnitBatch| b@)
                == singleton_plan_spec(units@),
    {
        if self.optimization_enabled {
            self.create_batches(units)
        } else {
            self.singleton_batches(units)
        }
    }

    /// Compiles an optimizable batch into one chained (system, user) prompt
    /// pair, exactly as `compiled_system_prompt` and `compiled_user_prompt`
    /// describe.
    #[verifier::rlimit(60)]
    pub fn compile_chained_prompt(&self, input: &str, batch: &UnitBatch) -> (r: (String, String))
        requires
            batch@.units.len() >= 1,
            forall|j: int| 0 <= j < batch@.units.len() ==> is_prompt_unit(#[trigger] batch@.units[j]),
        ensures
            r.0@ == compiled_system_prompt(batch@.units),
            r.1@ == compiled_user_prompt(batch@.units, input@),
    {
        let ghost all = batch@.units;
        let mut sys = String::from_str(
            "You are executing a chained processing pipeline. Process each step sequentially, using the output from each step as input to the next.\n\n",
        );
        let mut user = String::from_str("Execute the following steps in order:\n\n");
        let ghost sys_base = sys@;
        let ghost user_base = user@;
        let mut k: usize = 0;
        proof {
            assert(all.take(0) =~= Seq::<ProcessingUnit>::empty());
            assert(sys@ =~= sys_base + sys_parts_from(all.take(0), 0));
            assert(user@ =~= user_base + user_parts_from(all.take(0), 0, input@));
        }
        while k < batch.units.len()
            invariant
                k <= all.len(),
                all == batch@.units,
                all.len() >= 1,
                forall|j: int| 0 <= j < all.len() ==> is_prompt_unit(#[trigger] all[j]),
                sys@ == sys_base + sys_parts_from(all.take(k as int), 0),
                user@ == user_base + user_parts_from(all.take(k as int), 0, input@),
            decreases all.len() - k,
        {
            let ghost oldsys = sys@;
            let ghost olduser = user@;
            let u = &batch.units[k];
            if k > 0 {
                sys.append("\n\n");
                user.append("\n\n");
            }
            let number = crate::text::format_u64((k as u64) + 1);
            match &u.unit_type {
                UnitType::Prompt { system_prompt, user_prompt_template, .. } => {
                    sys.append("## Step ");
                    sys.append(number.as_str());
                    sys.append(": ");
                    sys.append(u.name.as_str());
                    sys.append("\n");
                    sys.append(system_prompt.as_str());
                    user.append("### Step ");
                    user.append(number.as_str());
                    user.append(": ");
                    user.append(u.name.as_str());
                    user.append("\n");
                    if k == 0 {
                        let body = crate::text::replace_literal(
                            user_prompt_template.as_str(),
                            "{{input}}",
                            input,
                        );
                        user.append(body.as_str());
                    } else {
                        let mut marker = String::from_str("{STEP_");
                        let step_number = crate::text::format_u64(k as u64);
                        marker.append(step_number.as_str());
                        marker.append("_OUTPUT}");
                        proof {
                            assert(marker@ =~= step_marker(k as nat));
                        }
                        let body = crate::text::replace_literal(
                            user_prompt_template.as_str(),
                            "{{input}}",
                            marker.as_str(),
                        );
                        user.append(body.as_str());
                    }
                    proof {
                        assert(number@ == dec_digits((k + 1) as nat));
                        assert(sys@ =~= oldsys + (if k == 0 {
                            Seq::<char>::empty()
                        } else {
                            "\n\n"@
                        }) + step_sys_part(k as nat, all[k as int]));
                        assert(user@ =~= olduser + (if k == 0 {
                            Seq::<char>::empty()
                        } else {
                            "\n\n"@
                        }) + step_user_part(k as nat, all[k as int], input@));
                    }
                },
                UnitType::TextReplacement { .. } => {
                    proof {
                        assert(is_prompt_unit(all[k as int]));
                        assert(false);
                    }
                },
            }
            proof {
                assert(all.take(k + 1) =~= all.take(k as int).push(all[k as int]));
                lemma_sys_parts_push(all.take(k as int), all[k as int], 0);
                lemma_user_parts_push(all.take(k as int), all[k as int], 0, input@);
                if k == 0 {
                    assert(sys@ =~= sys_base + sys_parts_from(all.take(k + 1), 0));
                    assert(user@ =~= user_base + user_parts_from(all.take(k + 1), 0, input@));
                } else {
                    assert(all.take(k as int).len() == k as int);
                    assert(sys@ =~= sys_base + sys_parts_from(all.take(k + 1), 0));
                    assert(user@ =~= user_base + user_parts_from(all.take(k + 1), 0, input@));
                }
            }
            k = k + 1;
        }
        user.append("\n\nProvide ONLY the final output from the last step.");
        proof {
            assert(all.take(all.len() as int) =~= all);
            assert(sys@ =~= compiled_system_prompt(all));
            assert(user@ =~= compiled_user_prompt(all, input@));
        }
        (sys, user)
    }
}

// ---------- text replacement execution ----------

/// What the regex engine accepts as a pattern, with the chosen case mode.
pub uninterp spec fn regex_valid(pattern: Seq<char>, case_insensitive: bool) -> bool;

/// What the regex engine's replace-all produces for a pattern, case mode,
/// haystack and replacement (`$`-references expanded as the engine does).
pub uninterp spec fn regex_replaced(
    pattern: Seq<char>,
    case_insensitive: bool,
    text: Seq<char>,
    rep: Seq<char>,
) -> Seq<char>;

/// The text with every case-insensitive occurrence of the literal `find`
/// replaced by `rep`, as the regex engine folds case.
pub uninterp spec fn ci_literal_replaced(
    find: Seq<char>,
    text: Seq<char>,
    rep: Seq<char>,
) -> Seq<char>;

/// Relies on regex::RegexBuilder::build and regex::Regex::replace_all:
/// builds the pattern in the chosen case mode and replaces every match.
/// The result depends on the four arguments alone.
#[verifier::external_body]
fn regex_replace_all(pattern: &str, case_insensitive: bool, text: &str, rep: &str) -> (r: Result<
    String,
    String,
>)
    ensures
        r is Ok <==> regex_valid(pattern@, case_insensitive),
        r is Ok ==> r->Ok_0@ == regex_replaced(pattern@, case_insensitive, text@, rep@),
{
    let built = regex::RegexBuilder::new(pattern).case_insensitive(case_insensitive).build();
    match built {
        Ok(re) => Ok(re.replace_all(text, rep).into_owned()),
        Err(e) => Err(e.to_string()),
    }
}

/// Relies on regex::escape, regex::RegexBuilder::build and
/// regex::Regex::replace_all: an escaped pattern always compiles and matches
/// `find` as a literal, so this replaces every case-insensitive occurrence.
/// The fallback arm is unreachable by regex's documentation of escape.
#[verifier::external_body]
fn regex_replace_literal_ci(find: &str, text: &str, rep: &str) -> (r: String)
    ensures
        r@ == ci_literal_replaced(find@, text@, rep@),
{
    let pattern = regex::escape(find);
    match regex::RegexBuilder::new(&pattern).case_insensitive(true).build() {
        Ok(re) => re.replace_all(text, rep).into_owned(),
        Err(_) => text.to_string(),
    }
}

/// Is a replacement unit's pattern acceptable?  Only a regex-mode pattern
/// can be rejected.
pub open spec fn replacement_ok(find: Seq<char>, is_rx: bool, cs: bool) -> bool {
    is_rx ==> regex_valid(find, !cs)
}

/// What one replacement unit produces from the running text.
pub open spec fn replaced_text(
    find: Seq<char>,
    rep: Seq<char>,
    is_rx: bool,
    cs: bool,
    text: Seq<char>,
) -> Seq<char> {
    if is_rx {
        regex_replaced(find, !cs, text, rep)
    } else if cs {
        crate::text::lit_replaced(text, find, rep)
    } else {
        ci_literal_replaced(find, text, rep)
    }
}

/// Applies one text replacement to the running text: a literal substring
/// replace when case-sensitive and non-regex, a case-insensitive literal
/// match when non-regex and case-insensitive, and a compiled pattern in
/// regex mode.  A malformed pattern is a configuration error, not a crash.
pub fn execute_replacement(find: &str, rep: &str, is_rx: bool, cs: bool, text: &str) -> (r: Result<
    String,
    WhisperCatError,
>)
    ensures
        r is Ok <==> replacement_ok(find@, is_rx, cs),
        r is Ok ==> r->Ok_0@ == replaced_text(find@, rep@, is_rx, cs, text@),
        r is Err ==> r->Err_0 is ConfigError,
{
    if is_rx {
        match regex_replace_all(find, !cs, text, rep) {
            Ok(s) => Ok(s),
            Err(msg) => Err(WhisperCatError::ConfigError(msg)),
        }
    } else if cs {
        Ok(crate::text::replace_literal(text, find, rep))
    } else {
        Ok(regex_replace_literal_ci(find, text, rep))
    }
}

// ---------- the prompt compiler ----------

pub open spec fn prompt_sys(u: ProcessingUnit) -> Seq<char>
    recommends
        is_prompt_unit(u),
{
    u.unit_type->system_prompt@
}

pub open spec fn prompt_template(u: ProcessingUnit) -> Seq<char>
    recommends
        is_prompt_unit(u),
{
    u.unit_type->user_prompt_template@
}

/// The system-prompt section for step `k` (zero-based; labels count from 1).
pub open spec fn step_sys_part(k: nat, u: ProcessingUnit) -> Seq<char> {
    "## Step "@ + dec_digits(k + 1) + ": "@ + u.name@ + "\n"@ + prompt_sys(u)
}

/// The synthetic marker standing for the output of step `k`.
pub open spec fn step_marker(k: nat) -> Seq<char> {
    "{STEP_"@ + dec_digits(k) + "_OUTPUT}"@
}

/// The user-prompt section for step `k`: the first step sees the running
/// text in place of its input placeholder, later steps see the previous
/// step's marker.
pub open spec fn step_user_part(k: nat, u: ProcessingUnit, input: Seq<char>) -> Seq<char> {
    let body = if k == 0 {
        crate::text::lit_replaced(prompt_template(u), "{{input}}"@, input)
    } else {
        crate::text::lit_replaced(prompt_template(u), "{{input}}"@, step_marker(k))
    };
    "### Step "@ + dec_digits(k + 1) + ": "@ + u.name@ + "\n"@ + body
}

/// The system sections of the units, numbered from `k`, joined by blank
/// lines.
pub open spec fn sys_parts_from(units: Seq<ProcessingUnit>, k: nat) -> Seq<char>
    decreases units.len(),
{
    if units.len() == 0 {
        Seq::<char>::empty()
    } else if units.len() == 1 {
        step_sys_part(k, units[0])
    } else {
        step_sys_part(k, units[0]) + "\n\n"@ + sys_parts_from(units.skip(1), k + 1)
    }
}

/// The user sections of the units, numbered from `k`, joined by blank lines.
pub open spec fn user_parts_from(units: Seq<ProcessingUnit>, k: nat, input: Seq<char>) -> Seq<char>
    decreases units.len(),
{
    if units.len() == 0 {
        Seq::<char>::empty()
    } else if units.len() == 1 {
        step_user_part(k, units[0], input)
    } else {
        step_user_part(k, units[0], input) + "\n\n"@ + user_parts_from(units.skip(1), k + 1, input)
    }
}

/// The single system prompt compiled for an optimizable batch.
pub open spec fn compiled_system_prompt(units: Seq<ProcessingUnit>) -> Seq<char> {
    "You are executing a chained processing pipeline. Process each step sequentially, using the output from each step as input to the next.\n\n"@
        + sys_parts_from(units, 0)
}

/// The single user prompt compiled for an optimizable batch.
pub open spec fn compiled_user_prompt(units: Seq<ProcessingUnit>, input: Seq<char>) -> Seq<char> {
    "Execute the following steps in order:\n\n"@ + user_parts_from(units, 0, input)
        + "\n\nProvide ONLY the final output from the last step."@
}

proof fn lemma_sys_parts_push(units: Seq<ProcessingUnit>, u: ProcessingUnit, k: nat)
    ensures
        sys_parts_from(units.push(u), k) == if units.len() == 0 {
            step_sys_part(k, u)
        } else {
            sys_parts_from(units, k) + "\n\n"@ + step_sys_part(k + units.len(), u)
        },
    decreases units.len(),
{
    if units.len() == 0 {
        assert(units.push(u).len() == 1);
        assert(units.push(u)[0] == u);
    } else {
        assert(units.push(u)[0] == units[0]);
        assert(units.push(u).skip(1) =~= units.skip(1).push(u));
        lemma_sys_parts_push(units.skip(1), u, k + 1);
        if units.len() == 1 {
            assert(units.skip(1).len() == 0);
            assert(sys_parts_from(units.push(u), k)
                =~= sys_parts_from(units, k) + "\n\n"@ + step_sys_part(k + units.len(), u));
        } else {
            assert((k + 1) + units.skip(1).len() == k + units.len());
            assert(sys_parts_from(units.push(u), k)
                =~= sys_parts_from(units, k) + "\n\n"@ + step_sys_part(k + units.len(), u));
        }
    }
}

proof fn lemma_user_parts_push(
    units: Seq<ProcessingUnit>,
    u: ProcessingUnit,
    k: nat,
    input: Seq<char>,
)
    ensures
        user_parts_from(units.push(u), k, input) == if units.len() == 0 {
            step_user_part(k, u, input)
        } else {
            user_parts_from(units, k, input) + "\n\n"@ + step_user_part(
                k + units.len(),
                u,
                input,
            )
        },
    decreases units.len(),
{
    if units.len() == 0 {
        assert(units.push(u).len() == 1);
        assert(units.push(u)[0] == u);
    } else {
        assert(units.push(u)[0] == units[0]);
        assert(units.push(u).skip(1) =~= units.skip(1).push(u));
        lemma_user_parts_push(units.skip(1), u, k + 1, input);
        if units.len() == 1 {
            assert(units.skip(1).len() == 0);
            assert(user_parts_from(units.push(u), k, input)
                =~= user_parts_from(units, k, input) + "\n\n"@ + step_user_part(
                    k + units.len(),
                    u,
                    input,
                ));
        } else {
            assert((k + 1) + units.skip(1).len() == k + units.len());
            assert(user_parts_from(units.push(u), k, input)
                =~= user_parts_from(units, k, input) + "\n\n"@ + step_user_part(
                    k + units.len(),
                    u,
                    input,
                ));
        }
    }
}

/// With optimization off there are exactly as many batches as units, each a
/// singleton holding its unit, none optimizable.
pub proof fn lemma_singleton_plan_shape(units: Seq<ProcessingUnit>)
    ensures
        singleton_plan_spec(units).len() == units.len(),
        forall|i: int|
            0 <= i < units.len() ==> (#[trigger] singleton_plan_spec(units)[i]).units
                == seq![units[i]],
        forall|i: int|
            0 <= i < units.len() ==> !(#[trigger] singleton_plan_spec(units)[i]).optimizable,
        forall|i: int|
            0 <= i < units.len() ==> batch_wf(#[trigger] singleton_plan_spec(units)[i]),
        batches_units(singleton_plan_spec(units)) == units,
    decreases units.len(),
{
    if units.len() == 0 {
        assert(batches_units(singleton_plan_spec(units)) =~= units);
    } else {
        lemma_singleton_plan_shape(units.skip(1));
        assert(singleton_plan_spec(units).skip(1) =~= singleton_plan_spec(units.skip(1)));
        assert(batches_units(singleton_plan_spec(units))
            =~= seq![units[0]] + batches_units(singleton_plan_spec(units.skip(1))));
        assert(batches_units(singleton_plan_spec(units)) =~= units);
    }
}

// ---------- resolving references ----------

/// The first unit in the store with the given id.
pub open spec fn find_unit(store: Seq<ProcessingUnit>, id: UnitId) -> Option<ProcessingUnit>
    decreases store.len(),
{
    if store.len() == 0 {
        None
    } else if store[0].id == id {
        Some(store[0])
    } else {
        find_unit(store.skip(1), id)
    }
}

/// The enabled references of a pipeline resolved against the store, in
/// order; a disabled or dangling reference contributes nothing.
pub open spec fn resolved_spec(
    refs: Seq<PipelineUnitReference>,
    store: Seq<ProcessingUnit>,
) -> Seq<ProcessingUnit>
    decreases refs.len(),
{
    if refs.len() == 0 {
        Seq::<ProcessingUnit>::empty()
    } else {
        let rest = resolved_spec(refs.skip(1), store);
        if !refs[0].enabled {
            rest
        } else {
            match find_unit(store, refs[0].unit_id) {
                Some(u) => seq![u] + rest,
                None => rest,
            }
        }
    }
}

/// The warning recorded for a dangling reference.
pub open spec fn warning_text(id: UnitId) -> Seq<char> {
    "skipped a reference to a missing unit: "@ + dec_digits(id.value as nat)
}

/// One warning per enabled reference whose unit is not in the store, in
/// order.
pub open spec fn warning_texts(
    refs: Seq<PipelineUnitReference>,
    store: Seq<ProcessingUnit>,
) -> Seq<Seq<char>>
    decreases refs.len(),
{
    if refs.len() == 0 {
        Seq::<Seq<char>>::empty()
    } else {
        let rest = warning_texts(refs.skip(1), store);
        if refs[0].enabled && find_unit(store, refs[0].unit_id) is None {
            seq![warning_text(refs[0].unit_id)] + rest
        } else {
            rest
        }
    }
}

/// Finds the first unit with the given id, as `find_unit` describes.
fn lookup_unit(store: &[ProcessingUnit], id: UnitId) -> (r: Option<ProcessingUnit>)
    ensures
        r == find_unit(store@, id),
{
    let len = store.len();
    let mut j: usize = 0;
    proof {
        assert(store@.skip(0) =~= store@);
    }
    while j < len
        invariant
            j <= len,
            len == store@.len(),
            find_unit(store@, id) == find_unit(store@.skip(j as int), id),
        decreases len - j,
    {
        let ghost rest = store@.skip(j as int);
        proof {
            assert(rest[0] == store@[j as int]);
            assert(rest.skip(1) =~= store@.skip(j + 1));
        }
        if store[j].id == id {
            return Some(store[j].clone());
        }
        j = j + 1;
    }
    proof {
        assert(store@.skip(j as int) =~= Seq::<ProcessingUnit>::empty());
    }
    None
}

fn make_warning(id: UnitId) -> (r: String)
    ensures
        r@ == warning_text(id),
{
    let mut out = String::from_str("skipped a reference to a missing unit: ");
    let digits = crate::text::format_u128(id.value);
    out.append(digits.as_str());
    out
}

/// Resolves a pipeline's references against the store: the enabled units
/// found, in reference order, and one warning per dangling reference.
pub fn resolve_units(pipeline: &Pipeline, units: &[ProcessingUnit]) -> (r: (
    Vec<ProcessingUnit>,
    Vec<String>,
))
    ensures
        r.0@ == resolved_spec(pipeline.unit_refs@, units@),
        r.1@.map_values(|w: String| w@) == warning_texts(pipeline.unit_refs@, units@),
{
    let ghost refs = pipeline.unit_refs@;
    let mut resolved: Vec<ProcessingUnit> = Vec::new();
    let mut warnings: Vec<String> = Vec::new();
    let mut i: usize = 0;
    proof {
        assert(refs.skip(0) =~= refs);
        assert(resolved@ + resolved_spec(refs, units@) =~= resolved_spec(refs, units@));
        assert(warnings@.map_values(|w: String| w@) + warning_texts(refs, units@)
            =~= warning_texts(refs, units@));
    }
    while i < pipeline.unit_refs.len()
        invariant
            i <= refs.len(),
            refs == pipeline.unit_refs@,
            resolved@ + resolved_spec(refs.skip(i as int), units@) == resolved_spec(refs, units@),
            warnings@.map_values(|w: String| w@) + warning_texts(refs.skip(i as int), units@)
                == warning_texts(refs, units@),
        decreases refs.len() - i,
    {
        let ghost rest = refs.skip(i as int);
        let ghost oldresolved = resolved@;
        let ghost oldwarnings = warnings@;
        proof {
            assert(rest[0] == refs[i as int]);
            assert(rest.skip(1) =~= refs.skip(i + 1));
        }
        let rf = pipeline.unit_refs[i];
        if rf.enabled {
            match lookup_unit(units, rf.unit_id) {
                Some(u) => {
                    resolved.push(u);
                    proof {
                        assert(resolved@
                            =~= oldresolved + seq![find_unit(units@, refs[i as int].unit_id)->0]);
                        assert(resolved@ + resolved_spec(refs.skip(i + 1), units@)
                            =~= oldresolved + (seq![find_unit(units@, refs[i as int].unit_id)->0]
                                + resolved_spec(refs.skip(i + 1), units@)));
                    }
                },
                None => {
                    let w = make_warning(rf.unit_id);
                    warnings.push(w);
                    proof {
                        assert(warnings@.map_values(|w: String| w@)
                            =~= oldwarnings.map_values(|w: String| w@)
                            + seq![warning_text(refs[i as int].unit_id)]);
                        assert(warnings@.map_values(|w: String| w@)
                            + warning_texts(refs.skip(i + 1), units@)
                            =~= oldwarnings.map_values(|w: String| w@)
                            + (seq![warning_text(refs[i as int].unit_id)]
                                + warning_texts(refs.skip(i + 1), units@)));
                    }
                },
            }
        }
        i = i + 1;
    }
    proof {
        assert(refs.skip(i as int) =~= Seq::<PipelineUnitReference>::empty());
    }
    (resolved, warnings)
}

// ---------- the execution state machine ----------

/// The external call the driver is asked to make before execution can
/// advance.
pub struct PendingCall {
    pub batch_index: usize,
    pub input: String,
    pub label: String,
    pub optimized: bool,
    pub called_at: i64,
}

/// The state of one run between steps.  The driver repeatedly calls `step`;
/// whenever it is handed a `Call` it performs the external completion call
/// and feeds the response back through `provide_response`.
pub struct ExecutionState {
    pub batches: Vec<UnitBatch>,
    pub next_batch: usize,
    pub current_text: String,
    pub log_entries: Vec<ExecutionLogEntry>,
    pub warnings: Vec<String>,
    pub started_at: i64,
    pub awaiting: Option<PendingCall>,
}

/// What one step of the machine asks of the driver.
pub enum StepOutcome {
    Call { system_prompt: String, user_prompt: String, model: String },
    Applied,
    Done { result: ExecutionResult },
    Failed { error: WhisperCatError },
}

/// How a run begins: a short-circuit identity result, or a running state.
pub enum ExecutionStart {
    Finished { result: ExecutionResult },
    Running { state: ExecutionState },
}

/// The state invariant every machine operation preserves.
pub open spec fn state_wf(s: ExecutionState) -> bool {
    &&& s.next_batch <= s.batches@.len()
    &&& (forall|i: int| 0 <= i < s.batches@.len() ==> batch_wf((#[trigger] s.batches@[i])@))
    &&& (s.awaiting is Some ==> s.awaiting->0.batch_index == s.next_batch && s.next_batch
        < s.batches@.len())
}

/// The label an optimized chain's log entry carries.
pub open spec fn chain_label(n: nat) -> Seq<char> {
    "OPTIMIZED CHAIN ("@ + dec_digits(n) + " units)"@
}

pub open spec fn tr_find(u: ProcessingUnit) -> Seq<char>
    recommends
        u.unit_type is TextReplacement,
{
    u.unit_type->find@
}

pub open spec fn tr_replace(u: ProcessingUnit) -> Seq<char>
    recommends
        u.unit_type is TextReplacement,
{
    u.unit_type->replace@
}

pub open spec fn tr_regex(u: ProcessingUnit) -> bool
    recommends
        u.unit_type is TextReplacement,
{
    u.unit_type->regex
}

pub open spec fn tr_case_sensitive(u: ProcessingUnit) -> bool
    recommends
        u.unit_type is TextReplacement,
{
    u.unit_type->case_sensitive
}

/// Whether a replacement unit's pattern is acceptable.
pub open spec fn unit_replacement_ok(u: ProcessingUnit) -> bool
    recommends
        u.unit_type is TextReplacement,
{
    replacement_ok(tr_find(u), tr_regex(u), tr_case_sensitive(u))
}

/// What a replacement unit makes of the running text.
pub open spec fn unit_replacement_output(u: ProcessingUnit, text: Seq<char>) -> Seq<char>
    recommends
        u.unit_type is TextReplacement,
{
    replaced_text(tr_find(u), tr_replace(u), tr_regex(u), tr_case_sensitive(u), text)
}

impl PipelineExecutor {
    /// Starts a run over already-resolved units: an immediate identity
    /// result when there is nothing to execute, else a planned state.
    pub fn begin_units(
        &self,
        input: String,
        units: &Vec<ProcessingUnit>,
        warnings: Vec<String>,
        now_ms: i64,
    ) -> (r: ExecutionStart)
        ensures
            match r {
                ExecutionStart::Finished { result } => {
                    &&& units@.len() == 0
                    &&& result.output == input
                    &&& result.log_entries@ == Seq::<ExecutionLogEntry>::empty()
                    &&& result.warnings@ == warnings@
                    &&& result.total_duration_ms == 0
                },
                ExecutionStart::Running { state } => {
                    &&& units@.len() > 0
                    &&& state_wf(state)
                    &&& state.batches@.map_values(|b: UnitBatch| b@) == (
                        if self.optimization_enabled {
                            plan_spec(units@)
                        } else {
                            singleton_plan_spec(units@)
                        })
                    &&& state.next_batch == 0
                    &&& state.awaiting is None
                    &&& state.current_text == input
                    &&& state.log_entries@ == Seq::<ExecutionLogEntry>::empty()
                    &&& state.warnings@ == warnings@
                    &&& state.started_at == now_ms
                },
            },
    {
        if units.len() == 0 {
            return ExecutionStart::Finished {
                result: ExecutionResult {
                    output: input,
                    log_entries: Vec::new(),
                    warnings,
                    total_duration_ms: 0,
                },
            };
        }
        let batches = self.plan(units);
        proof {
            if self.optimization_enabled {
                lemma_plan_batches_wf(units@);
            } else {
                lemma_singleton_plan_shape(units@);
            }
            assert forall|i: int| 0 <= i < batches@.len() implies batch_wf(
                (#[trigger] batches@[i])@,
            ) by {
                assert(batches@.map_values(|b: UnitBatch| b@)[i] == batches@[i]@);
            }
        }
        ExecutionStart::Running {
            state: ExecutionState {
                batches,
                next_batch: 0,
                current_text: input,
                log_entries: Vec::new(),
                warnings,
                started_at: now_ms,
                awaiting: None,
            },
        }
    }

    /// Starts a reference-based run: a disabled pipeline, or one whose
    /// resolved and enabled unit list is empty, short-circuits to the
    /// unmodified input with an empty log and zero duration.
    pub fn begin_with_units(
        &self,
        input: String,
        pipeline: &Pipeline,
        units: &[ProcessingUnit],
        now_ms: i64,
    ) -> (r: ExecutionStart)
        ensures
            !pipeline.enabled ==> match r {
                ExecutionStart::Finished { result } => {
                    &&& result.output == input
                    &&& result.log_entries@ == Seq::<ExecutionLogEntry>::empty()
                    &&& result.warnings@ == Seq::<String>::empty()
                    &&& result.total_duration_ms == 0
                },
                ExecutionStart::Running { state } => false,
            },
            pipeline.enabled ==> match r {
                ExecutionStart::Finished { result } => {
                    &&& resolved_spec(pipeline.unit_refs@, units@).len() == 0
                    &&& result.output == input
                    &&& result.log_entries@ == Seq::<ExecutionLogEntry>::empty()
                    &&& result.warnings@.map_values(|w: String| w@) == warning_texts(
                        pipeline.unit_refs@,
                        units@,
                    )
                    &&& result.total_duration_ms == 0
                },
                ExecutionStart::Running { state } => {
                    &&& resolved_spec(pipeline.unit_refs@, units@).len() > 0
                    &&& state_wf(state)
                    &&& state.batches@.map_values(|b: UnitBatch| b@) == (
                        if self.optimization_enabled {
                            plan_spec(resolved_spec(pipeline.unit_refs@, units@))
                        } else {
                            singleton_plan_spec(resolved_spec(pipeline.unit_refs@, units@))
                        })
                    &&& state.next_batch == 0
                    &&& state.awaiting is None
                    &&& state.current_text == input
                    &&& state.log_entries@ == Seq::<ExecutionLogEntry>::empty()
                    &&& state.warnings@.map_values(|w: String| w@) == warning_texts(
                        pipeline.unit_refs@,
                        units@,
                    )
                    &&& state.started_at == now_ms
                },
            },
    {
        if !pipeline.enabled {
            return ExecutionStart::Finished {
                result: ExecutionResult {
                    output: input,
                    log_entries: Vec::new(),
                    warnings: Vec::new(),
                    total_duration_ms: 0,
                },
            };
        }
        let (resolved, warnings) = resolve_units(pipeline, units);
        self.begin_units(input, &resolved, warnings, now_ms)
    }

    /// One decision of the machine: finish when every batch is done, apply
    /// a text replacement locally, or hand the driver the single external
    /// call that stands for the next batch.
    pub fn step(&self, state: &mut ExecutionState, now_ms: i64) -> (r: StepOutcome)
        requires
            state_wf(*old(state)),
            old(state).awaiting is None,
        ensures
            state_wf(*final(state)),
            final(state).batches@ == old(state).batches@,
            final(state).started_at == old(state).started_at,
            final(state).warnings@ == old(state).warnings@,
            match r {
                StepOutcome::Done { result } => {
                    &&& old(state).next_batch == old(state).batches@.len()
                    &&& *final(state) == *old(state)
                    &&& result.output@ == old(state).current_text@
                    &&& result.log_entries@ == old(state).log_entries@
                    &&& result.warnings@ == old(state).warnings@
                    &&& result.total_duration_ms == crate::time::elapsed_ms_spec(
                        old(state).started_at,
                        now_ms,
                    )
                },
                StepOutcome::Call { system_prompt, user_prompt, model } => {
                    let b = old(state).batches@[old(state).next_batch as int]@;
                    &&& old(state).next_batch < old(state).batches@.len()
                    &&& final(state).next_batch == old(state).next_batch
                    &&& final(state).current_text@ == old(state).current_text@
                    &&& final(state).log_entries@ == old(state).log_entries@
                    &&& final(state).awaiting is Some
                    &&& {
                        let p = final(state).awaiting->0;
                        &&& p.batch_index == old(state).next_batch
                        &&& p.input@ == old(state).current_text@
                        &&& p.optimized == b.optimizable
                        &&& p.called_at == now_ms
                        &&& (b.optimizable ==> p.label@ == chain_label(b.units.len()))
                        &&& (!b.optimizable ==> p.label@ == b.units[0].name@)
                    }
                    &&& (b.optimizable ==> {
                        &&& system_prompt@ == compiled_system_prompt(b.units)
                        &&& user_prompt@ == compiled_user_prompt(
                            b.units,
                            old(state).current_text@,
                        )
                        &&& model@ == b.model->0
                    })
                    &&& (!b.optimizable ==> {
                        &&& b.units.len() == 1
                        &&& is_prompt_unit(b.units[0])
                        &&& system_prompt@ == prompt_sys(b.units[0])
                        &&& user_prompt@ == crate::text::lit_replaced(
                            prompt_template(b.units[0]),
                            "{{input}}"@,
                            old(state).current_text@,
                        )
                        &&& model@ == unit_model(b.units[0])
                    })
                },
                StepOutcome::Applied => {
                    let b = old(state).batches@[old(state).next_batch as int]@;
                    let u = b.units[0];
                    &&& old(state).next_batch < old(state).batches@.len()
                    &&& !b.optimizable
                    &&& b.units.len() == 1
                    &&& u.unit_type is TextReplacement
                    &&& unit_replacement_ok(u)
                    &&& final(state).next_batch == old(state).next_batch + 1
                    &&& final(state).awaiting is None
                    &&& final(state).current_text@ == unit_replacement_output(
                        u,
                        old(state).current_text@,
                    )
                    &&& final(state).log_entries@.len() == old(state).log_entries@.len() + 1
                    &&& final(state).log_entries@.take(old(state).log_entries@.len() as int)
                        == old(state).log_entries@
                    &&& {
                        let e = final(state).log_entries@.last();
                        &&& e.timestamp == now_ms
                        &&& e.unit_name@ == u.name@
                        &&& e.input@ == old(state).current_text@
                        &&& e.output@ == unit_replacement_output(u, old(state).current_text@)
                        &&& e.duration_ms == 0
                        &&& e.optimized == false
                    }
                },
                StepOutcome::Failed { error } => {
                    let b = old(state).batches@[old(state).next_batch as int]@;
                    let u = b.units[0];
                    &&& old(state).next_batch < old(state).batches@.len()
                    &&& u.unit_type is TextReplacement
                    &&& !unit_replacement_ok(u)
                    &&& error is ConfigError
                    &&& *final(state) == *old(state)
                },
            },
    {
        let idx = state.next_batch;
        if idx == state.batches.len() {
            let result = ExecutionResult {
                output: state.current_text.clone(),
                log_entries: clone_log(&state.log_entries),
                warnings: clone_strings(&state.warnings),
                total_duration_ms: crate::time::elapsed_ms(state.started_at, now_ms),
            };
            return StepOutcome::Done { result };
        }
        let ghost bview = state.batches@[idx as int]@;
        proof {
            assert(batch_wf(bview));
        }
        if state.batches[idx].optimizable {
            let (system_prompt, user_prompt) = self.compile_chained_prompt(
                state.current_text.as_str(),
                &state.batches[idx],
            );
            let model = match &state.batches[idx].model {
                Some(m) => m.clone(),
                None => String::new(),
            };
            let n = state.batches[idx].units.len();
            let mut label = String::from_str("OPTIMIZED CHAIN (");
            let number = crate::text::format_u64(n as u64);
            label.append(number.as_str());
            label.append(" units)");
            proof {
                assert(label@ =~= chain_label(bview.units.len()));
            }
            let pending = PendingCall {
                batch_index: idx,
                input: state.current_text.clone(),
                label,
                optimized: true,
                called_at: now_ms,
            };
            state.awaiting = Some(pending);
            StepOutcome::Call { system_prompt, user_prompt, model }
        } else {
            proof {
                assert(bview.units.len() == 1);
            }
            if unit_is_prompt(&state.batches[idx].units[0]) {
                let (system_prompt, user_prompt, model) = match &state.batches[idx].units[0]
                    .unit_type {
                    UnitType::Prompt { model, system_prompt, user_prompt_template, .. } => {
                        let up = crate::text::replace_literal(
                            user_prompt_template.as_str(),
                            "{{input}}",
                            state.current_text.as_str(),
                        );
                        (system_prompt.clone(), up, model.clone())
                    },
                    UnitType::TextReplacement { .. } => {
                        proof {
                            assert(false);
                        }
                        (String::new(), String::new(), String::new())
                    },
                };
                let name = state.batches[idx].units[0].name.clone();
                let pending = PendingCall {
                    batch_index: idx,
                    input: state.current_text.clone(),
                    label: name,
                    optimized: false,
                    called_at: now_ms,
                };
                state.awaiting = Some(pending);
                StepOutcome::Call { system_prompt, user_prompt, model }
            } else {
                let (find, rep, is_rx, cs) = match &state.batches[idx].units[0].unit_type {
                    UnitType::TextReplacement { find, replace, regex, case_sensitive } => {
                        (find.clone(), replace.clone(), *regex, *case_sensitive)
                    },
                    UnitType::Prompt { .. } => {
                        proof {
                            assert(false);
                        }
                        (String::new(), String::new(), false, false)
                    },
                };
                let name = state.batches[idx].units[0].name.clone();
                match execute_replacement(
                    find.as_str(),
                    rep.as_str(),
                    is_rx,
                    cs,
                    state.current_text.as_str(),
                ) {
                    Ok(out) => {
                        let ghost oldlog = state.log_entries@;
                        let entry = ExecutionLogEntry {
                            timestamp: now_ms,
                            unit_name: name,
                            input: state.current_text.clone(),
                            output: out.clone(),
                            duration_ms: 0,
                            optimized: false,
                        };
                        state.log_entries.push(entry);
                        state.current_text = out;
                        state.next_batch = idx + 1;
                        proof {
                            assert(state.log_entries@.take(oldlog.len() as int) =~= oldlog);
                        }
                        StepOutcome::Applied
                    },
                    Err(error) => StepOutcome::Failed { error },
                }
            }
        }
    }
}

impl ExecutionState {
    /// Hands the machine the completion service's response: the pending
    /// call's log entry is appended and the response becomes the running
    /// text.
    pub fn provide_response(&mut self, response: String, now_ms: i64)
        requires
            state_wf(*old(self)),
            old(self).awaiting is Some,
        ensures
            state_wf(*final(self)),
            final(self).batches@ == old(self).batches@,
            final(self).started_at == old(self).started_at,
            final(self).warnings@ == old(self).warnings@,
            final(self).next_batch == old(self).next_batch + 1,
            final(self).awaiting is None,
            final(self).current_text == response,
            final(self).log_entries@.len() == old(self).log_entries@.len() + 1,
            final(self).log_entries@.take(old(self).log_entries@.len() as int)
                == old(self).log_entries@,
            ({
                let p = old(self).awaiting->0;
                let e = final(self).log_entries@.last();
                &&& e.timestamp == now_ms
                &&& e.unit_name@ == p.label@
                &&& e.input@ == p.input@
                &&& e.output == response
                &&& e.duration_ms == crate::time::elapsed_ms_spec(p.called_at, now_ms)
                &&& e.optimized == p.optimized
            }),
    {
        let taken = self.awaiting.take();
        if let Some(p) = taken {
            let ghost oldlog = self.log_entries@;
            let entry = ExecutionLogEntry {
                timestamp: now_ms,
                unit_name: p.label,
                input: p.input,
                output: response.clone(),
                duration_ms: crate::time::elapsed_ms(p.called_at, now_ms),
                optimized: p.optimized,
            };
            self.log_entries.push(entry);
            self.current_text = response;
            let total = self.batches.len();
            proof {
                assert(self.next_batch < total);
            }
            self.next_batch = self.next_batch + 1;
            proof {
                assert(self.log_entries@.take(oldlog.len() as int) =~= oldlog);
            }
        }
    }
}

} // verus!
