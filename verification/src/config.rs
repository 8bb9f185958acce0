use vstd::prelude::*;
use vstd::string::*;
use crate::pipeline::{Pipeline, PipelineUnitReference, ProcessingUnit, UnitId, clone_opt_string};

verus! {

#[derive(Debug)]
pub struct WhisperConfig {
    pub api_key: String,
    pub model: String,
    pub provider: String,
    pub faster_whisper_url: Option<String>,
    pub openwebui_url: Option<String>,
    pub openwebui_api_key: Option<String>,
}

impl Clone for WhisperConfig {
    fn clone(&self) -> (r: Self)
        ensures
            r == *self,
    {
        WhisperConfig {
            api_key: self.api_key.clone(),
            model: self.model.clone(),
            provider: self.provider.clone(),
            faster_whisper_url: clone_opt_string(&self.faster_whisper_url),
            openwebui_url: clone_opt_string(&self.openwebui_url),
            openwebui_api_key: clone_opt_string(&self.openwebui_api_key),
        }
    }
}

impl Default for WhisperConfig {
    fn default() -> (r: Self)
        ensures
            r.api_key@ == Seq::<char>::empty(),
            r.model@ == "whisper-1"@,
            r.provider@ == "OpenAI"@,
            r.faster_whisper_url is None,
            r.openwebui_url is None,
            r.openwebui_api_key is None,
    {
        WhisperConfig {
            api_key: String::new(),
            model: "whisper-1".to_owned(),
            provider: "OpenAI".to_owned(),
            faster_whisper_url: None,
            openwebui_url: None,
            openwebui_api_key: None,
        }
    }
}

#[derive(Debug)]
pub struct AudioConfig {
    pub sample_rate: u32,
    pub channels: u16,
    pub device_name: Option<String>,
}

impl Clone for AudioConfig {
    fn clone(&self) -> (r: Self)
        ensures
            r == *self,
    {
        AudioConfig {
            sample_rate: self.sample_rate,
            channels: self.channels,
            device_name: clone_opt_string(&self.device_name),
        }
    }
}

impl Default for AudioConfig {
    fn default() -> (r: Self)
        ensures
            r.sample_rate == 16000,
            r.channels == 1,
            r.device_name is None,
    {
        AudioConfig { sample_rate: 16000, channels: 1, device_name: None }
    }
}

/// Silence-removal settings; the threshold is an RMS cutoff in millionths
/// of full scale, as `AudioBuffer` holds samples.
#[derive(Debug, Clone, Copy, PartialEq, Eq, Structural)]
pub struct SilenceRemovalConfig {
    pub enabled: bool,
    pub threshold: u32,
    pub min_duration_ms: u32,
    pub min_recording_duration_sec: u32,
}

impl Default for SilenceRemovalConfig {
    fn default() -> (r: Self)
        ensures
            r.enabled,
            r.threshold == 10000,
            r.min_duration_ms == 1500,
            r.min_recording_duration_sec == 10,
    {
        SilenceRemovalConfig {
            enabled: true,
            threshold: 10000,
            min_duration_ms: 1500,
            min_recording_duration_sec: 10,
        }
    }
}

#[derive(Debug)]
pub struct HotkeyConfig {
    pub record_toggle: String,
}

impl Clone for HotkeyConfig {
    fn clone(&self) -> (r: Self)
        ensures
            r == *self,
    {
        HotkeyConfig { record_toggle: self.record_toggle.clone() }
    }
}

impl Default for HotkeyConfig {
    fn default() -> (r: Self)
        ensures
            r.record_toggle@ == "Ctrl+Shift+R"@,
    {
        HotkeyConfig { record_toggle: "Ctrl+Shift+R".to_owned() }
    }
}

#[derive(Debug)]
pub struct UiConfig {
    pub theme: String,
    pub auto_paste: bool,
}

impl Clone for UiConfig {
    fn clone(&self) -> (r: Self)
        ensures
            r == *self,
    {
        UiConfig { theme: self.theme.clone(), auto_paste: self.auto_paste }
    }
}

impl Default for UiConfig {
    fn default() -> (r: Self)
        ensures
            r.theme@ == "Dark"@,
            r.auto_paste == false,
    {
        UiConfig { theme: "Dark".to_owned(), auto_paste: false }
    }
}

/// The application's settings plus the store of processing units and
/// pipelines.  Loading and saving the file lives with the caller; the store
/// operations and their invariants live here.
#[derive(Debug)]
pub struct Config {
    pub whisper: WhisperConfig,
    pub audio: AudioConfig,
    pub silence_removal: SilenceRemovalConfig,
    pub hotkeys: HotkeyConfig,
    pub ui: UiConfig,
    pub processing_units: Vec<ProcessingUnit>,
    pub pipelines: Vec<Pipeline>,
    pub last_used_pipeline: Option<UnitId>,
}

impl Default for Config {
    fn default() -> (r: Self)
        ensures
            r.whisper.model@ == "whisper-1"@,
            r.whisper.provider@ == "OpenAI"@,
            r.whisper.api_key@ == Seq::<char>::empty(),
            r.audio.sample_rate == 16000,
            r.audio.channels == 1,
            r.silence_removal.enabled,
            r.silence_removal.threshold == 10000,
            r.silence_removal.min_duration_ms == 1500,
            r.hotkeys.record_toggle@ == "Ctrl+Shift+R"@,
            r.ui.theme@ == "Dark"@,
            r.ui.auto_paste == false,
            r.processing_units@ == Seq::<ProcessingUnit>::empty(),
            r.pipelines@ == Seq::<Pipeline>::empty(),
            r.last_used_pipeline is None,
    {
        Config {
            whisper: WhisperConfig::default(),
            audio: AudioConfig::default(),
            silence_removal: SilenceRemovalConfig::default(),
            hotkeys: HotkeyConfig::default(),
            ui: UiConfig::default(),
            processing_units: Vec::new(),
            pipelines: Vec::new(),
            last_used_pipeline: None,
        }
    }
}

// ---------- store operations over units ----------

/// The store with the unit saved: the first record with the same id is
/// replaced, or the unit is appended when its id is new.
pub open spec fn upsert_unit(store: Seq<ProcessingUnit>, unit: ProcessingUnit) -> Seq<
    ProcessingUnit,
>
    decreases store.len(),
{
    if store.len() == 0 {
        seq![unit]
    } else if store[0].id == unit.id {
        seq![unit] + store.skip(1)
    } else {
        seq![store[0]] + upsert_unit(store.skip(1), unit)
    }
}

proof fn lemma_upsert_unit_found(store: Seq<ProcessingUnit>, unit: ProcessingUnit, i: int)
    requires
        0 <= i < store.len(),
        store[i].id == unit.id,
        forall|j: int| 0 <= j < i ==> (#[trigger] store[j]).id != unit.id,
    ensures
        upsert_unit(store, unit) == store.update(i, unit),
    decreases i,
{
    if i == 0 {
        assert(seq![unit] + store.skip(1) =~= store.update(0, unit));
    } else {
        assert(store.skip(1)[i - 1].id == unit.id);
        assert forall|j: int| 0 <= j < i - 1 implies (#[trigger] store.skip(1)[j]).id != unit.id by {
            assert(store.skip(1)[j] == store[j + 1]);
        }
        lemma_upsert_unit_found(store.skip(1), unit, i - 1);
        assert(seq![store[0]] + store.skip(1).update(i - 1, unit) =~= store.update(i, unit));
    }
}

proof fn lemma_upsert_unit_missing(store: Seq<ProcessingUnit>, unit: ProcessingUnit)
    requires
        forall|j: int| 0 <= j < store.len() ==> (#[trigger] store[j]).id != unit.id,
    ensures
        upsert_unit(store, unit) == store.push(unit),
    decreases store.len(),
{
    if store.len() == 0 {
        assert(seq![unit] =~= store.push(unit));
    } else {
        assert forall|j: int|
            0 <= j < store.skip(1).len() implies (#[trigger] store.skip(1)[j]).id != unit.id by {
            assert(store.skip(1)[j] == store[j + 1]);
        }
        lemma_upsert_unit_missing(store.skip(1), unit);
        assert(seq![store[0]] + store.skip(1).push(unit) =~= store.push(unit));
    }
}

/// A saved unit is found again under its id, unchanged: the store
/// round-trips records without loss.
pub proof fn lemma_unit_store_round_trip(store: Seq<ProcessingUnit>, unit: ProcessingUnit)
    ensures
        crate::pipeline::find_unit(upsert_unit(store, unit), unit.id) == Some(unit),
    decreases store.len(),
{
    if store.len() == 0 {
        assert(upsert_unit(store, unit)[0] == unit);
    } else if store[0].id == unit.id {
        assert(upsert_unit(store, unit)[0] == unit);
    } else {
        lemma_unit_store_round_trip(store.skip(1), unit);
        let upserted = upsert_unit(store, unit);
        assert(upserted[0] == store[0]);
        assert(upserted.skip(1) =~= upsert_unit(store.skip(1), unit));
    }
}

/// A saved pipeline is found again under its id, unchanged.
pub proof fn lemma_pipeline_store_round_trip(store: Seq<Pipeline>, pipeline: Pipeline)
    ensures
        Config::find_pipeline(upsert_pipeline(store, pipeline), pipeline.id) == Some(pipeline),
    decreases store.len(),
{
    if store.len() == 0 {
        assert(upsert_pipeline(store, pipeline)[0] == pipeline);
    } else if store[0].id == pipeline.id {
        assert(upsert_pipeline(store, pipeline)[0] == pipeline);
    } else {
        lemma_pipeline_store_round_trip(store.skip(1), pipeline);
        let upserted = upsert_pipeline(store, pipeline);
        assert(upserted[0] == store[0]);
        assert(upserted.skip(1) =~= upsert_pipeline(store.skip(1), pipeline));
    }
}

/// The store without every record of the given id.
pub open spec fn without_unit(store: Seq<ProcessingUnit>, id: UnitId) -> Seq<ProcessingUnit>
    decreases store.len(),
{
    if store.len() == 0 {
        Seq::<ProcessingUnit>::empty()
    } else if store[0].id == id {
        without_unit(store.skip(1), id)
    } else {
        seq![store[0]] + without_unit(store.skip(1), id)
    }
}

/// The reference list without every reference to the given id.
pub open spec fn without_ref(refs: Seq<PipelineUnitReference>, id: UnitId) -> Seq<
    PipelineUnitReference,
>
    decreases refs.len(),
{
    if refs.len() == 0 {
        Seq::<PipelineUnitReference>::empty()
    } else if refs[0].unit_id == id {
        without_ref(refs.skip(1), id)
    } else {
        seq![refs[0]] + without_ref(refs.skip(1), id)
    }
}

// ---------- store operations over pipelines ----------

/// The store with the pipeline saved: the first record with the same id is
/// replaced, or the pipeline is appended when its id is new.
pub open spec fn upsert_pipeline(store: Seq<Pipeline>, pipeline: Pipeline) -> Seq<Pipeline>
    decreases store.len(),
{
    if store.len() == 0 {
        seq![pipeline]
    } else if store[0].id == pipeline.id {
        seq![pipeline] + store.skip(1)
    } else {
        seq![store[0]] + upsert_pipeline(store.skip(1), pipeline)
    }
}

proof fn lemma_upsert_pipeline_found(store: Seq<Pipeline>, pipeline: Pipeline, i: int)
    requires
        0 <= i < store.len(),
        store[i].id == pipeline.id,
        forall|j: int| 0 <= j < i ==> (#[trigger] store[j]).id != pipeline.id,
    ensures
        upsert_pipeline(store, pipeline) == store.update(i, pipeline),
    decreases i,
{
    if i == 0 {
        assert(seq![pipeline] + store.skip(1) =~= store.update(0, pipeline));
    } else {
        assert(store.skip(1)[i - 1].id == pipeline.id);
        assert forall|j: int|
            0 <= j < i - 1 implies (#[trigger] store.skip(1)[j]).id != pipeline.id by {
            assert(store.skip(1)[j] == store[j + 1]);
        }
        lemma_upsert_pipeline_found(store.skip(1), pipeline, i - 1);
        assert(seq![store[0]] + store.skip(1).update(i - 1, pipeline) =~= store.update(
            i,
            pipeline,
        ));
    }
}

proof fn lemma_upsert_pipeline_missing(store: Seq<Pipeline>, pipeline: Pipeline)
    requires
        forall|j: int| 0 <= j < store.len() ==> (#[trigger] store[j]).id != pipeline.id,
    ensures
        upsert_pipeline(store, pipeline) == store.push(pipeline),
    decreases store.len(),
{
    if store.len() == 0 {
        assert(seq![pipeline] =~= store.push(pipeline));
    } else {
        assert forall|j: int|
            0 <= j < store.skip(1).len() implies (#[trigger] store.skip(1)[j]).id != pipeline.id by {
            assert(store.skip(1)[j] == store[j + 1]);
        }
        lemma_upsert_pipeline_missing(store.skip(1), pipeline);
        assert(seq![store[0]] + store.skip(1).push(pipeline) =~= store.push(pipeline));
    }
}

/// The store without every pipeline of the given id.
pub open spec fn without_pipeline(store: Seq<Pipeline>, id: UnitId) -> Seq<Pipeline>
    decreases store.len(),
{
    if store.len() == 0 {
        Seq::<Pipeline>::empty()
    } else if store[0].id == id {
        without_pipeline(store.skip(1), id)
    } else {
        seq![store[0]] + without_pipeline(store.skip(1), id)
    }
}

impl Config {
    /// Returns all processing units.
    pub fn get_processing_units(&self) -> (r: &[ProcessingUnit])
        ensures
            r@ == self.processing_units@,
    {
        self.processing_units.as_slice()
    }

    /// Gets the first processing unit with the given id.
    pub fn get_processing_unit(&self, id: UnitId) -> (r: Option<&ProcessingUnit>)
        ensures
            match r {
                Some(u) => crate::pipeline::find_unit(self.processing_units@, id) == Some(*u),
                None => crate::pipeline::find_unit(self.processing_units@, id) is None,
            },
    {
        let ghost store = self.processing_units@;
        let mut j: usize = 0;
        proof {
            assert(store.skip(0) =~= store);
        }
        while j < self.processing_units.len()
            invariant
                j <= store.len(),
                store == self.processing_units@,
                crate::pipeline::find_unit(store, id) == crate::pipeline::find_unit(
                    store.skip(j as int),
                    id,
                ),
            decreases store.len() - j,
        {
            let ghost rest = store.skip(j as int);
            proof {
                assert(rest[0] == store[j as int]);
                assert(rest.skip(1) =~= store.skip(j + 1));
            }
            if self.processing_units[j].id == id {
                return Some(&self.processing_units[j]);
            }
            j = j + 1;
        }
        proof {
            assert(store.skip(j as int) =~= Seq::<ProcessingUnit>::empty());
        }
        None
    }

    /// Saves or updates a processing unit, as `upsert_unit` describes.
    pub fn save_processing_unit(&mut self, unit: ProcessingUnit)
        ensures
            final(self).processing_units@ == upsert_unit(old(self).processing_units@, unit),
            final(self).pipelines@ == old(self).pipelines@,
            final(self).last_used_pipeline == old(self).last_used_pipeline,
            final(self).whisper == old(self).whisper,
            final(self).audio == old(self).audio,
            final(self).silence_removal == old(self).silence_removal,
            final(self).hotkeys == old(self).hotkeys,
            final(self).ui == old(self).ui,
    {
        let ghost store = self.processing_units@;
        let mut j: usize = 0;
        let mut found: Option<usize> = None;
        while j < self.processing_units.len() && found.is_none()
            invariant
                j <= store.len(),
                store == self.processing_units@,
                match found {
                    Some(i) => i < store.len() && store[i as int].id == unit.id && forall|k: int|
                        0 <= k < i ==> (#[trigger] store[k]).id != unit.id,
                    None => forall|k: int| 0 <= k < j ==> (#[trigger] store[k]).id != unit.id,
                },
            decreases (if found is None { 1int } else { 0int }), store.len() - j,
        {
            if self.processing_units[j].id == unit.id {
                found = Some(j);
            } else {
                j = j + 1;
            }
        }
        match found {
            Some(i) => {
                proof {
                    lemma_upsert_unit_found(store, unit, i as int);
                }
                self.processing_units[i] = unit;
            },
            None => {
                proof {
                    lemma_upsert_unit_missing(store, unit);
                }
                self.processing_units.push(unit);
            },
        }
    }

    /// Deletes a processing unit by id and cascades: every pipeline loses
    /// its references to it.
    pub fn delete_processing_unit(&mut self, id: UnitId)
        ensures
            final(self).processing_units@ == without_unit(old(self).processing_units@, id),
            final(self).pipelines@.len() == old(self).pipelines@.len(),
            forall|i: int|
                0 <= i < old(self).pipelines@.len() ==> {
                    let before = old(self).pipelines@[i];
                    let after = #[trigger] final(self).pipelines@[i];
                    &&& after.unit_refs@ == without_ref(before.unit_refs@, id)
                    &&& after.id == before.id
                    &&& after.name == before.name
                    &&& after.description == before.description
                    &&& after.enabled == before.enabled
                    &&& after.units@ == before.units@
                    &&& after.created_at == before.created_at
                    &&& after.updated_at == before.updated_at
                },
            final(self).last_used_pipeline == old(self).last_used_pipeline,
            final(self).whisper == old(self).whisper,
            final(self).audio == old(self).audio,
            final(self).silence_removal == old(self).silence_removal,
            final(self).hotkeys == old(self).hotkeys,
            final(self).ui == old(self).ui,
    {
        let ghost store = self.processing_units@;
        let mut remaining: Vec<ProcessingUnit> = Vec::new();
        core::mem::swap(&mut remaining, &mut self.processing_units);
        let mut kept: Vec<ProcessingUnit> = Vec::new();
        proof {
            assert(kept@ + without_unit(store, id) =~= without_unit(store, id));
        }
        while remaining.len() > 0
            invariant
                kept@ + without_unit(remaining@, id) == without_unit(store, id),
            decreases remaining@.len(),
        {
            let ghost oldkept = kept@;
            let ghost rest = remaining@;
            let u = remaining.remove(0);
            proof {
                assert(u == rest[0]);
                assert(remaining@ =~= rest.skip(1));
            }
            if !(u.id == id) {
                kept.push(u);
                proof {
                    assert(kept@ =~= oldkept + seq![rest[0]]);
                    assert(kept@ + without_unit(rest.skip(1), id)
                        =~= oldkept + (seq![rest[0]] + without_unit(rest.skip(1), id)));
                }
            }
        }
        proof {
            assert(remaining@ =~= Seq::<ProcessingUnit>::empty());
            assert(kept@ + Seq::<ProcessingUnit>::empty() =~= kept@);
        }
        self.processing_units = kept;
        let ghost pipes = self.pipelines@;
        let mut oldpipes: Vec<Pipeline> = Vec::new();
        core::mem::swap(&mut oldpipes, &mut self.pipelines);
        let mut newpipes: Vec<Pipeline> = Vec::new();
        while oldpipes.len() > 0
            invariant
                newpipes@.len() + oldpipes@.len() == pipes.len(),
                forall|i: int|
                    0 <= i < oldpipes@.len() ==> #[trigger] oldpipes@[i] == pipes[
                        newpipes@.len() + i
                    ],
                forall|i: int|
                    0 <= i < newpipes@.len() ==> {
                        let before = pipes[i];
                        let after = #[trigger] newpipes@[i];
                        &&& after.unit_refs@ == without_ref(before.unit_refs@, id)
                        &&& after.id == before.id
                        &&& after.name == before.name
                        &&& after.description == before.description
                        &&& after.enabled == before.enabled
                        &&& after.units@ == before.units@
                        &&& after.created_at == before.created_at
                        &&& after.updated_at == before.updated_at
                    },
            decreases oldpipes@.len(),
        {
            let ghost oldrest = oldpipes@;
            let ghost donelen = newpipes@.len();
            let pipeline = oldpipes.remove(0);
            proof {
                assert(pipeline == oldrest[0]);
                assert(oldpipes@ =~= oldrest.skip(1));
            }
            let ghost refs = pipeline.unit_refs@;
            let mut keptrefs: Vec<PipelineUnitReference> = Vec::new();
            let mut q: usize = 0;
            proof {
                assert(refs.skip(0) =~= refs);
                assert(keptrefs@ + without_ref(refs, id) =~= without_ref(refs, id));
            }
            while q < pipeline.unit_refs.len()
                invariant
                    q <= refs.len(),
                    refs == pipeline.unit_refs@,
                    keptrefs@ + without_ref(refs.skip(q as int), id) == without_ref(refs, id),
                decreases refs.len() - q,
            {
                let ghost oldkeptr = keptrefs@;
                let ghost rrest = refs.skip(q as int);
                proof {
                    assert(rrest[0] == refs[q as int]);
                    assert(rrest.skip(1) =~= refs.skip(q + 1));
                }
                let rf = pipeline.unit_refs[q];
                if !(rf.unit_id == id) {
                    keptrefs.push(rf);
                    proof {
                        assert(keptrefs@ =~= oldkeptr + seq![refs[q as int]]);
                        assert(keptrefs@ + without_ref(refs.skip(q + 1), id)
                            =~= oldkeptr + (seq![refs[q as int]] + without_ref(
                            refs.skip(q + 1),
                            id,
                        )));
                    }
                }
                q = q + 1;
            }
            proof {
                assert(refs.skip(q as int) =~= Seq::<PipelineUnitReference>::empty());
                assert(keptrefs@ + Seq::<PipelineUnitReference>::empty() =~= keptrefs@);
            }
            let rebuilt = Pipeline {
                id: pipeline.id,
                name: pipeline.name,
                description: pipeline.description,
                enabled: pipeline.enabled,
                unit_refs: keptrefs,
                units: pipeline.units,
                created_at: pipeline.created_at,
                updated_at: pipeline.updated_at,
            };
            newpipes.push(rebuilt);
        }
        proof {
            assert(newpipes@.len() == pipes.len());
        }
        self.pipelines = newpipes;
    }

    /// Returns all saved pipelines.
    pub fn get_pipelines(&self) -> (r: &[Pipeline])
        ensures
            r@ == self.pipelines@,
    {
        self.pipelines.as_slice()
    }

    /// The first pipeline with the given id.
    pub open spec fn find_pipeline(store: Seq<Pipeline>, id: UnitId) -> Option<Pipeline>
        decreases store.len(),
    {
        if store.len() == 0 {
            None
        } else if store[0].id == id {
            Some(store[0])
        } else {
            Self::find_pipeline(store.skip(1), id)
        }
    }

    /// Gets the first pipeline with the given id.
    pub fn get_pipeline(&self, id: UnitId) -> (r: Option<&Pipeline>)
        ensures
            match r {
                Some(p) => Self::find_pipeline(self.pipelines@, id) == Some(*p),
                None => Self::find_pipeline(self.pipelines@, id) is None,
            },
    {
        let ghost store = self.pipelines@;
        let mut j: usize = 0;
        proof {
            assert(store.skip(0) =~= store);
        }
        while j < self.pipelines.len()
            invariant
                j <= store.len(),
                store == self.pipelines@,
                Self::find_pipeline(store, id) == Self::find_pipeline(store.skip(j as int), id),
            decreases store.len() - j,
        {
            let ghost rest = store.skip(j as int);
            proof {
                assert(rest[0] == store[j as int]);
                assert(rest.skip(1) =~= store.skip(j + 1));
            }
            if self.pipelines[j].id == id {
                return Some(&self.pipelines[j]);
            }
            j = j + 1;
        }
        proof {
            assert(store.skip(j as int) =~= Seq::<Pipeline>::empty());
        }
        None
    }

    /// Saves or updates a pipeline, as `upsert_pipeline` describes.
    pub fn save_pipeline(&mut self, pipeline: Pipeline)
        ensures
            final(self).pipelines@ == upsert_pipeline(old(self).pipelines@, pipeline),
            final(self).processing_units@ == old(self).processing_units@,
            final(self).last_used_pipeline == old(self).last_used_pipeline,
            final(self).whisper == old(self).whisper,
            final(self).audio == old(self).audio,
            final(self).silence_removal == old(self).silence_removal,
            final(self).hotkeys == old(self).hotkeys,
            final(self).ui == old(self).ui,
    {
        let ghost store = self.pipelines@;
        let mut j: usize = 0;
        let mut found: Option<usize> = None;
        while j < self.pipelines.len() && found.is_none()
            invariant
                j <= store.len(),
                store == self.pipelines@,
                match found {
                    Some(i) => i < store.len() && store[i as int].id == pipeline.id && forall|
                        k: int,
                    |
                        0 <= k < i ==> (#[trigger] store[k]).id != pipeline.id,
                    None => forall|k: int| 0 <= k < j ==> (#[trigger] store[k]).id != pipeline.id,
                },
            decreases (if found is None { 1int } else { 0int }), store.len() - j,
        {
            if self.pipelines[j].id == pipeline.id {
                found = Some(j);
            } else {
                j = j + 1;
            }
        }
        match found {
            Some(i) => {
                proof {
                    lemma_upsert_pipeline_found(store, pipeline, i as int);
                }
                self.pipelines[i] = pipeline;
            },
            None => {
                proof {
                    lemma_upsert_pipeline_missing(store, pipeline);
                }
                self.pipelines.push(pipeline);
            },
        }
    }

    /// Deletes a pipeline by id, clearing the last-used marker if it
    /// pointed there.
    pub fn delete_pipeline(&mut self, id: UnitId)
        ensures
            final(self).pipelines@ == without_pipeline(old(self).pipelines@, id),
            final(self).processing_units@ == old(self).processing_units@,
            final(self).last_used_pipeline == (if old(self).last_used_pipeline == Some(id) {
                None::<UnitId>
            } else {
                old(self).last_used_pipeline
            }),
            final(self).whisper == old(self).whisper,
            final(self).audio == old(self).audio,
            final(self).silence_removal == old(self).silence_removal,
            final(self).hotkeys == old(self).hotkeys,
            final(self).ui == old(self).ui,
    {
        let ghost store = self.pipelines@;
        let mut remaining: Vec<Pipeline> = Vec::new();
        core::mem::swap(&mut remaining, &mut self.pipelines);
        let mut kept: Vec<Pipeline> = Vec::new();
        proof {
            assert(kept@ + without_pipeline(store, id) =~= without_pipeline(store, id));
        }
        while remaining.len() > 0
            invariant
                kept@ + without_pipeline(remaining@, id) == without_pipeline(store, id),
            decreases remaining@.len(),
        {
            let ghost oldkept = kept@;
            let ghost rest = remaining@;
            let pipeline = remaining.remove(0);
            proof {
                assert(pipeline == rest[0]);
                assert(remaining@ =~= rest.skip(1));
            }
            if !(pipeline.id == id) {
                kept.push(pipeline);
                proof {
                    assert(kept@ =~= oldkept + seq![rest[0]]);
                    assert(kept@ + without_pipeline(rest.skip(1), id)
                        =~= oldkept + (seq![rest[0]] + without_pipeline(rest.skip(1), id)));
                }
            }
        }
        proof {
            assert(remaining@ =~= Seq::<Pipeline>::empty());
            assert(kept@ + Seq::<Pipeline>::empty() =~= kept@);
        }
        self.pipelines = kept;
        let clear = match &self.last_used_pipeline {
            Some(last) => *last == id,
            None => false,
        };
        if clear {
            self.last_used_pipeline = None;
        }
    }

    /// Gets the last used pipeline id.
    pub fn get_last_used_pipeline(&self) -> (r: Option<UnitId>)
        ensures
            r == self.last_used_pipeline,
    {
        self.last_used_pipeline
    }

    /// Sets the last used pipeline id.
    pub fn set_last_used_pipeline(&mut self, id: Option<UnitId>)
        ensures
            final(self).last_used_pipeline == id,
            final(self).pipelines@ == old(self).pipelines@,
            final(self).processing_units@ == old(self).processing_units@,
            final(self).whisper == old(self).whisper,
            final(self).audio == old(self).audio,
            final(self).silence_removal == old(self).silence_removal,
            final(self).hotkeys == old(self).hotkeys,
            final(self).ui == old(self).ui,
    {
        self.last_used_pipeline = id;
    }
}

} // verus!
