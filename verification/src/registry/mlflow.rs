//! The MLflow model registry: where to ask, and what to make of the replies.

use vstd::prelude::*;

use crate::config::{ModelSchemaConfig, TensorSpec};
use crate::error::RegistryError;
use crate::text::{parse_natural, same_text, trim_trailing_slashes};

verus! {

/// Address book for the MLflow REST API.
#[derive(Debug)]
pub struct MlflowClient {
    /// Base address of the tracking server, without a slash at the end.
    pub tracking_uri: String,
}

impl MlflowClient {
    /// Creates a client for the given tracking server.
    pub fn new(tracking_uri: &str) -> (client: Self)
        ensures
            client.tracking_uri@ == crate::text::without_trailing_slashes(tracking_uri@),
    {
        MlflowClient { tracking_uri: trim_trailing_slashes(tracking_uri) }
    }

    /// Where the latest versions of a model are listed.
    pub fn latest_versions_url(&self) -> (url: String)
        ensures
            url@ == self.tracking_uri@
                + "/api/2.0/mlflow/registered-models/get-latest-versions"@,
    {
        let mut url = self.tracking_uri.clone();
        url.append("/api/2.0/mlflow/registered-models/get-latest-versions");
        url
    }

    /// Where a training run is described.
    pub fn run_url(&self) -> (url: String)
        ensures
            url@ == self.tracking_uri@ + "/api/2.0/mlflow/runs/get"@,
    {
        let mut url = self.tracking_uri.clone();
        url.append("/api/2.0/mlflow/runs/get");
        url
    }

    /// Where the files of a model version are served.
    pub fn artifact_url(&self) -> (url: String)
        ensures
            url@ == self.tracking_uri@ + "/model-versions/get-artifact"@,
    {
        let mut url = self.tracking_uri.clone();
        url.append("/model-versions/get-artifact");
        url
    }
}

/// What is still to be done to resolve a version.
#[derive(Debug)]
pub enum VersionRequest {
    /// The version is concrete.
    Concrete(String),
    /// The registry has to be asked for the latest one.
    AskLatest,
}

/// Passes a concrete version through, and asks for the latest one otherwise.
pub fn requested_version(version: &str) -> (request: VersionRequest)
    ensures
        request is AskLatest <==> version@ == "latest"@,
        request is Concrete ==> request->Concrete_0@ == version@,
{
    if same_text(version, "latest") {
        VersionRequest::AskLatest
    } else {
        VersionRequest::Concrete(version.to_owned())
    }
}

/// The rank of a version: its number, or 0 if it is not one.
pub open spec fn version_rank(version: Seq<char>) -> u64 {
    match crate::text::natural_value(version) {
        Some(number) => number,
        None => 0,
    }
}

/// True if the version at `i` is the latest of a list: none ranks higher, and
/// none behind it ranks as high.
pub open spec fn is_latest(versions: Seq<String>, i: int) -> bool {
    &&& 0 <= i < versions.len()
    &&& forall|j: int|
        0 <= j < versions.len() ==> version_rank((#[trigger] versions[j])@) <= version_rank(
            versions[i]@,
        )
    &&& forall|j: int|
        i < j < versions.len() ==> version_rank((#[trigger] versions[j])@) < version_rank(
            versions[i]@,
        )
}

/// The rank of a version.
fn rank(version: &str) -> (rank: u64)
    ensures
        rank == version_rank(version@),
{
    match parse_natural(version) {
        Some(number) => number,
        None => 0,
    }
}

/// Picks the latest of the versions that the registry lists for a model.
pub fn resolve_latest(name: &str, versions: &Vec<String>) -> (resolved: Result<
    String,
    RegistryError,
>)
    ensures
        resolved is Ok <==> versions@.len() > 0,
        resolved is Ok ==> exists|i: int|
            #[trigger] is_latest(versions@, i) && versions@[i]@ == resolved->Ok_0@,
        resolved is Err ==> resolved->Err_0 is ModelNotFound
            && resolved->Err_0->ModelNotFound_name@ == name@,
{
    if versions.len() == 0 {
        return Err(RegistryError::ModelNotFound { name: name.to_owned() });
    }
    let mut best: usize = 0;
    let mut best_rank: u64 = rank(versions[0].as_str());
    let count = versions.len();
    let mut i: usize = 1;
    while i < count
        invariant
            count == versions@.len(),
            1 <= i <= count,
            best < i,
            best_rank == version_rank(versions@[best as int]@),
            forall|j: int|
                0 <= j < i ==> version_rank((#[trigger] versions@[j])@) <= best_rank,
            forall|j: int|
                best < j < i ==> version_rank((#[trigger] versions@[j])@) < best_rank,
        decreases count - i,
    {
        let next = rank(versions[i].as_str());
        if next >= best_rank {
            best = i;
            best_rank = next;
        }
        i = i + 1;
    }
    assert(is_latest(versions@, best as int));
    Ok(versions[best].clone())
}

/// Law: a list of versions has at most one latest one.
pub proof fn law_latest_is_unique(versions: Seq<String>, i: int, j: int)
    requires
        is_latest(versions, i),
        is_latest(versions, j),
    ensures
        i == j,
{
    if i < j {
        assert(version_rank(versions[j]@) < version_rank(versions[i]@));
        assert(version_rank(versions[i]@) <= version_rank(versions[j]@));
    }
    if j < i {
        assert(version_rank(versions[i]@) < version_rank(versions[j]@));
        assert(version_rank(versions[j]@) <= version_rank(versions[i]@));
    }
}

/// The message for a reply that is not a success.
pub open spec fn status_message(status: Seq<char>, context: Seq<char>) -> Seq<char> {
    "MLflow returned "@ + status + " for "@ + context
}

/// Accepts a reply with a code from 200 to 299; any other is an error that
/// gives the rendered status and the context.
pub fn check_status(code: u16, status: &str, context: &str) -> (checked: Result<(), RegistryError>)
    ensures
        checked is Ok <==> 200 <= code < 300,
        checked is Err ==> checked->Err_0 is Request && checked->Err_0->Request_0@
            == status_message(status@, context@),
{
    if 200 <= code && code < 300 {
        return Ok(());
    }
    let mut message = String::new();
    message.append("MLflow returned ");
    message.append(status);
    message.append(" for ");
    message.append(context);
    assert(message@ =~= status_message(status@, context@));
    Err(RegistryError::Request(message))
}

/// The name under which a downloaded artifact is kept.
pub fn artifact_file_name(name: &str, version: &str) -> (file: String)
    ensures
        file@ == name@ + "_v"@ + version@ + ".onnx"@,
{
    let mut file = name.to_owned();
    file.append("_v");
    file.append(version);
    file.append(".onnx");
    assert(file@ =~= name@ + "_v"@ + version@ + ".onnx"@);
    file
}

/// A parameter that was logged for a training run.
#[derive(Debug)]
pub struct Param {
    /// Name of the parameter.
    pub key: String,
    /// Its value as it was logged.
    pub value: String,
}

/// The value that was logged last for a key, if there is one.
pub open spec fn last_value(params: Seq<Param>, key: Seq<char>) -> Option<Seq<char>>
    decreases params.len(),
{
    if params.len() == 0 {
        None
    } else if params.last().key@ == key {
        Some(params.last().value@)
    } else {
        last_value(params.drop_last(), key)
    }
}

/// A text, or nothing.
pub open spec fn text_of(text: Option<String>) -> Option<Seq<char>> {
    match text {
        Some(text) => Some(text@),
        None => None,
    }
}

/// The value that was logged last for a key.
pub fn find_param(params: &Vec<Param>, key: &str) -> (value: Option<String>)
    ensures
        text_of(value) == last_value(params@, key@),
{
    let mut i: usize = params.len();
    assert(params@.take(i as int) =~= params@);
    while i > 0
        invariant
            i <= params@.len(),
            last_value(params@, key@) == last_value(params@.take(i as int), key@),
        decreases i,
    {
        i = i - 1;
        proof {
            let front = params@.take(i + 1);
            assert(front.last() == params@[i as int]);
            assert(front.drop_last() =~= params@.take(i as int));
        }
        if same_text(params[i].key.as_str(), key) {
            return Some(params[i].value.clone());
        }
    }
    None
}

/// The logged values that seed a config, as texts.
#[derive(Debug)]
pub struct TrainingParams {
    /// Mean for the normalize stage.
    pub mean: Option<String>,
    /// Standard deviation for the normalize stage.
    pub std: Option<String>,
    /// Lower bound for the clip stage.
    pub clip_min: Option<String>,
    /// Upper bound for the clip stage.
    pub clip_max: Option<String>,
    /// Threshold for the postprocess stage.
    pub threshold: Option<String>,
}

/// Picks the values that seed a config out of what a run has logged.
pub fn training_params(params: &Vec<Param>) -> (found: TrainingParams)
    ensures
        text_of(found.mean) == last_value(params@, "mean"@),
        text_of(found.std) == last_value(params@, "std"@),
        text_of(found.clip_min) == last_value(params@, "clip_min"@),
        text_of(found.clip_max) == last_value(params@, "clip_max"@),
        text_of(found.threshold) == last_value(params@, "threshold"@),
{
    TrainingParams {
        mean: find_param(params, "mean"),
        std: find_param(params, "std"),
        clip_min: find_param(params, "clip_min"),
        clip_max: find_param(params, "clip_max"),
        threshold: find_param(params, "threshold"),
    }
}

/// The message for a model version without a training run.
pub open spec fn no_run_message(name: Seq<char>, version: Seq<char>) -> Seq<char> {
    "model '"@ + name + "' v"@ + version
        + " has no associated training run; params and schema cannot be seeded automatically"@
}

/// The training run of a model version, which has to have one.
pub fn require_run_id(run_id: Option<String>, name: &str, version: &str) -> (run: Result<
    String,
    RegistryError,
>)
    ensures
        run is Ok <==> run_id is Some,
        run is Ok ==> run->Ok_0@ == run_id->Some_0@,
        run is Err ==> run->Err_0 is Parse && run->Err_0->Parse_0@ == no_run_message(
            name@,
            version@,
        ),
{
    match run_id {
        Some(run_id) => Ok(run_id),
        None => {
            let mut message = String::new();
            message.append("model '");
            message.append(name);
            message.append("' v");
            message.append(version);
            message.append(
                " has no associated training run; params and schema cannot be seeded automatically",
            );
            assert(message@ =~= no_run_message(name@, version@));
            Err(RegistryError::Parse(message))
        },
    }
}

/// The tensor part of an entry of a model signature.
#[derive(Debug)]
pub struct MlTensorSpec {
    /// Data type.
    pub dtype: String,
    /// Shape.
    pub shape: Vec<i64>,
}

/// An entry of a model signature.
#[derive(Debug)]
pub struct MlTensorEntry {
    /// Name of the field.
    pub name: String,
    /// Type of the field.
    pub field_type: String,
    /// The tensor part, which only tensor fields have.
    pub tensor_spec: Option<MlTensorSpec>,
}

/// A model signature: the decoded entries of either side, or why they could not
/// be decoded.
#[derive(Debug)]
pub struct MlModelSignature {
    /// Input entries.
    pub inputs: Result<Vec<MlTensorEntry>, String>,
    /// Output entries.
    pub outputs: Result<Vec<MlTensorEntry>, String>,
}

/// The message for a field that is not a tensor.
pub open spec fn not_a_tensor_message(entry: MlTensorEntry) -> Seq<char> {
    "MLmodel signature field '"@ + entry.name@ + "' has type '"@ + entry.field_type@
        + "', not 'tensor'; axon only supports tensor inputs and outputs"@
}

/// True if a tensor is what an entry declares.
pub open spec fn declares(entry: MlTensorEntry, tensor: TensorSpec) -> bool {
    &&& entry.tensor_spec is Some
    &&& tensor.name@ == entry.name@
    &&& tensor.dtype@ == entry.tensor_spec->Some_0.dtype@
    &&& tensor.shape@ == entry.tensor_spec->Some_0.shape@
}

/// True if every entry is a tensor.
pub open spec fn all_tensors(entries: Seq<MlTensorEntry>) -> bool {
    forall|i: int| 0 <= i < entries.len() ==> (#[trigger] entries[i]).tensor_spec is Some
}

/// Position of the first entry that is not a tensor, or the number of entries
/// if there is none.
pub open spec fn first_other(entries: Seq<MlTensorEntry>) -> int
    decreases entries.len(),
{
    if entries.len() == 0 || entries[0].tensor_spec is None {
        0
    } else {
        1 + first_other(entries.skip(1))
    }
}

/// True if a list of tensors is what a list of entries declares, in order.
pub open spec fn all_declared(entries: Seq<MlTensorEntry>, tensors: Seq<TensorSpec>) -> bool {
    &&& tensors.len() == entries.len()
    &&& forall|i: int| 0 <= i < entries.len() ==> declares(entries[i], #[trigger] tensors[i])
}

/// The message of an error that is about a reply that makes no sense.
pub open spec fn parse_message(error: RegistryError) -> Option<Seq<char>> {
    match error {
        RegistryError::Parse(message) => Some(message@),
        _ => None,
    }
}

/// Turns the entries of one side of a signature into tensors.
fn convert_entries(entries: &Vec<MlTensorEntry>) -> (tensors: Result<
    Vec<TensorSpec>,
    RegistryError,
>)
    ensures
        tensors is Ok <==> all_tensors(entries@),
        tensors is Ok ==> all_declared(entries@, tensors->Ok_0@),
        tensors is Err ==> parse_message(tensors->Err_0) == Some(
            not_a_tensor_message(entries@[first_other(entries@)]),
        ),
{
    let mut tensors: Vec<TensorSpec> = Vec::new();
    let ghost all = entries@;
    let count = entries.len();
    assert(all.skip(0) =~= all);
    for i in 0..count
        invariant
            all == entries@,
            count == all.len(),
            tensors@.len() == i,
            first_other(all) == i + first_other(all.skip(i as int)),
            forall|j: int| 0 <= j < i ==> declares(all[j], #[trigger] tensors@[j]),
            forall|j: int| 0 <= j < i ==> (#[trigger] all[j]).tensor_spec is Some,
    {
        assert(all.skip(i as int)[0] == all[i as int]);
        assert(all.skip(i as int).skip(1) =~= all.skip(i + 1));
        let entry = &entries[i];
        match &entry.tensor_spec {
            Some(spec) => {
                tensors.push(
                    TensorSpec {
                        name: entry.name.clone(),
                        dtype: spec.dtype.clone(),
                        shape: spec.shape.clone(),
                    },
                );
                assert(tensors@[i as int].shape@ =~= spec.shape@);
            },
            None => {
                let mut message = String::new();
                message.append("MLmodel signature field '");
                message.append(entry.name.as_str());
                message.append("' has type '");
                message.append(entry.field_type.as_str());
                message.append("', not 'tensor'; axon only supports tensor inputs and outputs");
                assert(message@ =~= not_a_tensor_message(*entry));
                return Err(RegistryError::Parse(message));
            },
        }
    }
    Ok(tensors)
}

/// The message with which a signature is refused, if it is: a missing signature
/// first, then sides that could not be decoded, then fields that are not
/// tensors, inputs always before outputs.
pub open spec fn schema_refusal(signature: Option<MlModelSignature>) -> Option<Seq<char>> {
    match signature {
        None => Some(
            "MLmodel has no signature block; log the model with mlflow.models.infer_signature()"@,
        ),
        Some(signature) => match (signature.inputs, signature.outputs) {
            (Err(cause), _) => Some("failed to parse MLmodel signature inputs: "@ + cause@),
            (Ok(_), Err(cause)) => Some("failed to parse MLmodel signature outputs: "@ + cause@),
            (Ok(inputs), Ok(outputs)) => if !all_tensors(inputs@) {
                Some(not_a_tensor_message(inputs@[first_other(inputs@)]))
            } else if !all_tensors(outputs@) {
                Some(not_a_tensor_message(outputs@[first_other(outputs@)]))
            } else {
                None
            },
        },
    }
}

/// Takes the model schema from the signature of a model.
///
/// Fails if there is no signature, or if a field of it is not a tensor.
pub fn parse_model_schema(signature: &Option<MlModelSignature>) -> (schema: Result<
    ModelSchemaConfig,
    RegistryError,
>)
    ensures
        schema is Ok <==> schema_refusal(*signature) is None,
        schema is Ok ==> all_declared(
            signature->Some_0.inputs->Ok_0@,
            schema->Ok_0.inputs@,
        ) && all_declared(signature->Some_0.outputs->Ok_0@, schema->Ok_0.outputs@)
            && schema->Ok_0.schema_version is None,
        schema is Err ==> parse_message(schema->Err_0) == schema_refusal(*signature),
{
    let signature = match signature {
        Some(signature) => signature,
        None => {
            return Err(
                RegistryError::Parse(
                    "MLmodel has no signature block; log the model with mlflow.models.infer_signature()".to_owned(),
                ),
            );
        },
    };
    let raw_inputs = match &signature.inputs {
        Ok(entries) => entries,
        Err(cause) => {
            let mut message = String::new();
            message.append("failed to parse MLmodel signature inputs: ");
            message.append(cause.as_str());
            assert(message@ =~= "failed to parse MLmodel signature inputs: "@ + cause@);
            return Err(RegistryError::Parse(message));
        },
    };
    let raw_outputs = match &signature.outputs {
        Ok(entries) => entries,
        Err(cause) => {
            let mut message = String::new();
            message.append("failed to parse MLmodel signature outputs: ");
            message.append(cause.as_str());
            assert(message@ =~= "failed to parse MLmodel signature outputs: "@ + cause@);
            return Err(RegistryError::Parse(message));
        },
    };
    let inputs = match convert_entries(raw_inputs) {
        Ok(tensors) => tensors,
        Err(error) => {
            return Err(error);
        },
    };
    let outputs = match convert_entries(raw_outputs) {
        Ok(tensors) => tensors,
        Err(error) => {
            return Err(error);
        },
    };
    Ok(ModelSchemaConfig { inputs, outputs, schema_version: None })
}

/// Law: a version ranks by the number that it spells, and as zero if it spells
/// none.
pub proof fn law_rank_is_the_number(version: Seq<char>)
    ensures
        crate::text::natural_value(version) matches Some(number) ==> version_rank(version)
            == number,
        crate::text::natural_value(version) is None ==> version_rank(version) == 0,
{
}

/// Law: a version that is a plain numeral ranks as its number, so a larger
/// number ranks higher.
pub proof fn law_larger_number_ranks_higher(small: u64, large: u64)
    requires
        small < large,
    ensures
        version_rank(crate::text::natural_text(small as nat)) < version_rank(
            crate::text::natural_text(large as nat),
        ),
{
    crate::text::law_numeral_reads_back(small);
    crate::text::law_numeral_reads_back(large);
}

/// Law: no version in the list ranks higher than the latest, and one that ranks
/// as high stands before it.
pub proof fn law_latest_ranks_highest(versions: Seq<String>, i: int, j: int)
    requires
        is_latest(versions, i),
        0 <= j < versions.len(),
    ensures
        0 <= i < versions.len(),
        version_rank(versions[j]@) <= version_rank(versions[i]@),
        version_rank(versions[j]@) == version_rank(versions[i]@) ==> j <= i,
{
    assert(version_rank(versions[j]@) <= version_rank(versions[i]@));
}

/// Law: the value of a key is the one that was logged last for it.
pub proof fn law_last_logged_value_counts(params: Seq<Param>, key: Seq<char>, i: int)
    requires
        0 <= i < params.len(),
        params[i].key@ == key,
        forall|j: int| i < j < params.len() ==> (#[trigger] params[j]).key@ != key,
    ensures
        last_value(params, key) == Some(params[i].value@),
    decreases params.len(),
{
    if i < params.len() - 1 {
        let front = params.drop_last();
        assert(params[params.len() - 1].key@ != key);
        assert(front[i] == params[i]);
        assert forall|j: int| i < j < front.len() implies (#[trigger] front[j]).key@ != key by {
            assert(front[j] == params[j]);
        }
        law_last_logged_value_counts(front, key, i);
    }
}

/// Law: a key that was never logged has no value.
pub proof fn law_unlogged_key_has_no_value(params: Seq<Param>, key: Seq<char>)
    requires
        forall|j: int| 0 <= j < params.len() ==> (#[trigger] params[j]).key@ != key,
    ensures
        last_value(params, key) is None,
    decreases params.len(),
{
    if params.len() > 0 {
        let front = params.drop_last();
        assert(params[params.len() - 1].key@ != key);
        assert forall|j: int| 0 <= j < front.len() implies (#[trigger] front[j]).key@ != key by {
            assert(front[j] == params[j]);
        }
        law_unlogged_key_has_no_value(front, key);
    }
}

/// Law: a text is what it is, or nothing.
pub proof fn law_text_is_what_it_is(text: String)
    ensures
        text_of(Some(text)) == Some(text@),
        text_of(None) is None,
        parse_message(RegistryError::Parse(text)) == Some(text@),
{
}

/// Law: the messages about replies and signatures, with what they name.
pub proof fn law_messages_about_replies(
    status: Seq<char>,
    context: Seq<char>,
    name: Seq<char>,
    version: Seq<char>,
    entry: MlTensorEntry,
)
    ensures
        status_message(status, context) == "MLflow returned "@ + status + " for "@ + context,
        no_run_message(name, version) == "model '"@ + name + "' v"@ + version
            + " has no associated training run; params and schema cannot be seeded automatically"@,
        not_a_tensor_message(entry) == "MLmodel signature field '"@ + entry.name@ + "' has type '"@
            + entry.field_type@
            + "', not 'tensor'; axon only supports tensor inputs and outputs"@,
{
}

/// Law: tensors that a list of entries declares are as many, and each has the
/// name, the data type and every dimension of its entry.
pub proof fn law_declared_field_by_field(
    entries: Seq<MlTensorEntry>,
    tensors: Seq<TensorSpec>,
    i: int,
)
    requires
        all_declared(entries, tensors),
        0 <= i < entries.len(),
    ensures
        tensors.len() == entries.len(),
        entries[i].tensor_spec is Some,
        tensors[i].name@ == entries[i].name@,
        tensors[i].dtype@ == entries[i].tensor_spec->Some_0.dtype@,
        tensors[i].shape@ == entries[i].tensor_spec->Some_0.shape@,
{
    assert(declares(entries[i], tensors[i]));
}

/// Law: the first entry that is not a tensor is the one that is found.
pub proof fn law_first_other_entry(entries: Seq<MlTensorEntry>, i: int)
    requires
        0 <= i <= entries.len(),
        forall|j: int| 0 <= j < i ==> (#[trigger] entries[j]).tensor_spec is Some,
        i < entries.len() ==> entries[i].tensor_spec is None,
    ensures
        first_other(entries) == i,
        all_tensors(entries) <==> i == entries.len(),
    decreases entries.len(),
{
    if i < entries.len() && all_tensors(entries) {
        assert(entries[i].tensor_spec is Some);
    }
    if i > 0 {
        let rest = entries.skip(1);
        assert(entries[0].tensor_spec is Some);
        assert forall|j: int| 0 <= j < i - 1 implies (
        #[trigger] rest[j]).tensor_spec is Some by {
            assert(rest[j] == entries[j + 1]);
        }
        if i < entries.len() {
            assert(rest[i - 1] == entries[i]);
        }
        law_first_other_entry(rest, i - 1);
    }
}

/// Law: a signature gives a schema exactly if it is there, both sides could be
/// decoded, and every field of either side is a tensor.
pub proof fn law_what_signature_gives_a_schema(signature: Option<MlModelSignature>)
    ensures
        schema_refusal(signature) is None <==> signature is Some
            && signature->Some_0.inputs is Ok && signature->Some_0.outputs is Ok && (forall|i: int|
            0 <= i < signature->Some_0.inputs->Ok_0@.len() ==> (
            #[trigger] signature->Some_0.inputs->Ok_0@[i]).tensor_spec is Some) && (forall|i: int|
            0 <= i < signature->Some_0.outputs->Ok_0@.len() ==> (
            #[trigger] signature->Some_0.outputs->Ok_0@[i]).tensor_spec is Some),
{
}

/// Law: a signature that gives no schema is refused for being missing, then for
/// a side that could not be decoded, then for its first field that is not a
/// tensor; inputs come before outputs.
pub proof fn law_what_a_signature_is_refused_for(
    signature: MlModelSignature,
    i: int,
)
    ensures
        schema_refusal(None) == Some(
            "MLmodel has no signature block; log the model with mlflow.models.infer_signature()"@,
        ),
        signature.inputs matches Err(cause) ==> schema_refusal(Some(signature)) == Some(
            "failed to parse MLmodel signature inputs: "@ + cause@,
        ),
        signature.inputs is Ok ==> (signature.outputs matches Err(cause) ==> schema_refusal(
            Some(signature),
        ) == Some("failed to parse MLmodel signature outputs: "@ + cause@)),
        signature.inputs is Ok && signature.outputs is Ok && 0 <= i
            < signature.inputs->Ok_0@.len() && signature.inputs->Ok_0@[i].tensor_spec is None && (
        forall|j: int|
            0 <= j < i ==> (#[trigger] signature.inputs->Ok_0@[j]).tensor_spec is Some)
            ==> schema_refusal(Some(signature)) == Some(
            not_a_tensor_message(signature.inputs->Ok_0@[i]),
        ),
        signature.inputs is Ok && signature.outputs is Ok && (forall|j: int|
            0 <= j < signature.inputs->Ok_0@.len() ==> (
            #[trigger] signature.inputs->Ok_0@[j]).tensor_spec is Some) && 0 <= i
            < signature.outputs->Ok_0@.len() && signature.outputs->Ok_0@[i].tensor_spec is None && (
        forall|j: int|
            0 <= j < i ==> (#[trigger] signature.outputs->Ok_0@[j]).tensor_spec is Some)
            ==> schema_refusal(Some(signature)) == Some(
            not_a_tensor_message(signature.outputs->Ok_0@[i]),
        ),
{
    if signature.inputs is Ok && signature.outputs is Ok {
        let inputs = signature.inputs->Ok_0@;
        let outputs = signature.outputs->Ok_0@;
        if 0 <= i < inputs.len() && inputs[i].tensor_spec is None && (forall|j: int|
            0 <= j < i ==> (#[trigger] inputs[j]).tensor_spec is Some) {
            law_first_other_entry(inputs, i);
        }
        if 0 <= i < outputs.len() && outputs[i].tensor_spec is None && (forall|j: int|
            0 <= j < i ==> (#[trigger] outputs[j]).tensor_spec is Some) {
            law_first_other_entry(outputs, i);
        }
    }
}

} // verus!
