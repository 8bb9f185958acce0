use vstd::prelude::*;
use vstd::string::*;
use crate::text::starts_with;
use crate::transcription::types::TranscriptionProvider;

verus! {

/// A model available for transcription or chat completion.
#[derive(Debug)]
pub struct ModelInfo {
    pub id: String,
    pub name: String,
    pub provider: TranscriptionProvider,
}

impl Clone for ModelInfo {
    fn clone(&self) -> (r: Self)
        ensures
            r == *self,
    {
        ModelInfo { id: self.id.clone(), name: self.name.clone(), provider: self.provider }
    }
}

impl ModelInfo {
    /// A model whose display name starts out equal to its id.
    pub fn new(id: String, provider: TranscriptionProvider) -> (r: Self)
        ensures
            r.id == id,
            r.name == id,
            r.provider == provider,
    {
        let name = id.clone();
        ModelInfo { id, name, provider }
    }

    pub fn with_name(self, name: String) -> (r: Self)
        ensures
            r.id == self.id,
            r.name == name,
            r.provider == self.provider,
    {
        ModelInfo { id: self.id, name, provider: self.provider }
    }
}

/// The ids among the given ones that belong to transcription models: those
/// starting with "whisper".
pub open spec fn whisper_ids(ids: Seq<String>) -> Seq<String>
    decreases ids.len(),
{
    if ids.len() == 0 {
        Seq::<String>::empty()
    } else if "whisper"@.is_prefix_of(ids[0]@) {
        seq![ids[0]] + whisper_ids(ids.skip(1))
    } else {
        whisper_ids(ids.skip(1))
    }
}

/// Keeps the transcription-capable models of a provider's id list: each id
/// that starts with "whisper" becomes a model of the given provider, in
/// order.
pub fn whisper_models_from_ids(ids: Vec<String>, provider: TranscriptionProvider) -> (r: Vec<
    ModelInfo,
>)
    ensures
        r@.map_values(|m: ModelInfo| m.id) == whisper_ids(ids@),
        forall|j: int| 0 <= j < r@.len() ==> (#[trigger] r@[j]).provider == provider,
        forall|j: int| 0 <= j < r@.len() ==> (#[trigger] r@[j]).name == r@[j].id,
{
    let mut out: Vec<ModelInfo> = Vec::new();
    let mut i: usize = 0;
    proof {
        assert(ids@.skip(0) =~= ids@);
        assert(out@.map_values(|m: ModelInfo| m.id) + whisper_ids(ids@) =~= whisper_ids(ids@));
    }
    while i < ids.len()
        invariant
            i <= ids@.len(),
            out@.map_values(|m: ModelInfo| m.id) + whisper_ids(ids@.skip(i as int))
                == whisper_ids(ids@),
            forall|j: int| 0 <= j < out@.len() ==> (#[trigger] out@[j]).provider == provider,
            forall|j: int| 0 <= j < out@.len() ==> (#[trigger] out@[j]).name == out@[j].id,
        decreases ids@.len() - i,
    {
        let ghost oldout = out@;
        let ghost rest = ids@.skip(i as int);
        proof {
            assert(rest[0] == ids@[i as int]);
            assert(rest.skip(1) =~= ids@.skip(i + 1));
        }
        if starts_with(ids[i].as_str(), "whisper") {
            let m = ModelInfo::new(ids[i].clone(), provider);
            out.push(m);
            proof {
                assert(out@.map_values(|m: ModelInfo| m.id)
                    =~= oldout.map_values(|m: ModelInfo| m.id) + seq![ids@[i as int]]);
                assert(out@.map_values(|m: ModelInfo| m.id) + whisper_ids(ids@.skip(i + 1))
                    =~= oldout.map_values(|m: ModelInfo| m.id) + (seq![ids@[i as int]]
                    + whisper_ids(ids@.skip(i + 1))));
            }
        }
        i = i + 1;
    }
    proof {
        assert(ids@.skip(i as int) =~= Seq::<String>::empty());
        assert(out@.map_values(|m: ModelInfo| m.id) + Seq::<String>::empty()
            =~= out@.map_values(|m: ModelInfo| m.id));
    }
    out
}

/// The built-in fallback models for a provider, used when the provider
/// cannot be asked for a list.
pub fn get_default_models(provider: TranscriptionProvider) -> (r: Vec<ModelInfo>)
    ensures
        match provider {
            TranscriptionProvider::OpenAI => r@.len() == 1 && r@[0].id@ == "whisper-1"@
                && r@[0].name@ == "whisper-1"@,
            TranscriptionProvider::FasterWhisper => r@.len() == 5 && r@[0].id@
                == "Systran/faster-whisper-large-v3"@ && r@[0].name@ == "Large V3"@ && r@[1].id@
                == "Systran/faster-whisper-medium"@ && r@[1].name@ == "Medium"@ && r@[2].id@
                == "Systran/faster-whisper-small"@ && r@[2].name@ == "Small"@ && r@[3].id@
                == "Systran/faster-whisper-base"@ && r@[3].name@ == "Base"@ && r@[4].id@
                == "Systran/faster-whisper-tiny"@ && r@[4].name@ == "Tiny"@,
            TranscriptionProvider::OpenWebUI => r@.len() == 1 && r@[0].id@ == "whisper-1"@
                && r@[0].name@ == "whisper-1"@,
        },
        forall|j: int| 0 <= j < r@.len() ==> (#[trigger] r@[j]).provider == provider,
{
    let mut out: Vec<ModelInfo> = Vec::new();
    match provider {
        TranscriptionProvider::OpenAI => {
            out.push(ModelInfo::new("whisper-1".to_owned(), provider));
        },
        TranscriptionProvider::FasterWhisper => {
            out.push(
                ModelInfo::new("Systran/faster-whisper-large-v3".to_owned(), provider).with_name(
                    "Large V3".to_owned(),
                ),
            );
            out.push(
                ModelInfo::new("Systran/faster-whisper-medium".to_owned(), provider).with_name(
                    "Medium".to_owned(),
                ),
            );
            out.push(
                ModelInfo::new("Systran/faster-whisper-small".to_owned(), provider).with_name(
                    "Small".to_owned(),
                ),
            );
            out.push(
                ModelInfo::new("Systran/faster-whisper-base".to_owned(), provider).with_name(
                    "Base".to_owned(),
                ),
            );
            out.push(
                ModelInfo::new("Systran/faster-whisper-tiny".to_owned(), provider).with_name(
                    "Tiny".to_owned(),
                ),
            );
        },
        TranscriptionProvider::OpenWebUI => {
            out.push(ModelInfo::new("whisper-1".to_owned(), provider));
        },
    }
    out
}

/// Does a recording of this size exceed the completion service's 25 MB
/// upload limit?
pub fn file_too_large(size_bytes: u64) -> (r: bool)
    ensures
        r == (size_bytes > 26214400),
{
    size_bytes > 26214400
}

} // verus!
