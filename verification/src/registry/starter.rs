//! The starter config that is written for a registered model.

use vstd::prelude::*;

use crate::config::{ModelSchemaConfig, TensorSpec};
use crate::registry::mlflow::TrainingParams;
use crate::text::{push_list, push_quoted};

verus! {

/// The sections up to the model schema.
pub open spec fn server_sections(name: Seq<char>, version: Seq<char>) -> Seq<char> {
    "[grpc]\nhost = \"0.0.0.0\"\nport = 50051\nstream_poll_interval_ms = 1\nrequest_timeout_ms = 5000\n"@
        + "\n[backend]\ntype = \"onnx_runtime\"\n"@
        + "\n[registry]\ntype = \"mlflow\"\nuri = \"\" # TODO\nmodel_name = "@
        + crate::text::quoted_text(name) + "\nmodel_version = "@ + crate::text::quoted_text(version)
        + "\n\n[store]\ntype = \"redis\"\nurl = \"redis://localhost:6379\"\n"@
        + "\n[metrics]\nport = 9090\n"@
}

/// The section of one tensor of the model schema.
pub open spec fn tensor_section(side: Seq<char>, tensor: TensorSpec) -> Seq<char> {
    "\n[[model_schema."@ + side + "]]\nname = "@ + crate::text::quoted_text(tensor.name@)
        + "\ndtype = "@ + crate::text::quoted_text(tensor.dtype@) + "\nshape = "@
        + crate::text::list_text(crate::text::signed_ints(tensor.shape@)) + "\n"@
}

/// The sections of the tensors on one side of the model schema, in order.
pub open spec fn tensor_sections(side: Seq<char>, tensors: Seq<TensorSpec>) -> Seq<char>
    decreases tensors.len(),
{
    if tensors.len() == 0 {
        Seq::empty()
    } else {
        tensor_sections(side, tensors.drop_last()) + tensor_section(side, tensors.last())
    }
}

/// The sections of the model schema, or a line that asks for them.
pub open spec fn schema_sections(schema: Option<ModelSchemaConfig>) -> Seq<char> {
    match schema {
        Some(schema) => tensor_sections("inputs"@, schema.inputs@) + tensor_sections(
            "outputs"@,
            schema.outputs@,
        ),
        None => "\n# TODO: add [[model_schema.inputs]] and [[model_schema.outputs]]\n"@,
    }
}

/// The shape of the model's first input, or an empty one that is to be filled
/// in.
pub open spec fn shape_value(schema: Option<ModelSchemaConfig>) -> Seq<char> {
    if schema is Some && schema->Some_0.inputs@.len() > 0 {
        crate::text::list_text(crate::text::signed_ints(schema->Some_0.inputs@[0].shape@))
    } else {
        "[] # TODO"@
    }
}

/// A number that was logged, or a zero that is to be filled in.
pub open spec fn number_value(number: Option<String>) -> Seq<char> {
    match number {
        Some(number) => number@,
        None => "0.0 # TODO"@,
    }
}

/// The sections of the stages.
pub open spec fn stage_sections(
    schema: Option<ModelSchemaConfig>,
    values: TrainingParams,
) -> Seq<char> {
    "\n[[pipeline.stages]]\ntype = \"impute\"\ndefault_value = 0.0\n"@
        + "\n[[pipeline.stages]]\ntype = \"validate\"\nexpected_shape = "@ + shape_value(schema)
        + "\n\n[[pipeline.stages]]\ntype = \"clip\"\nmin = "@ + number_value(values.clip_min)
        + "\nmax = "@ + number_value(values.clip_max)
        + "\n\n[[pipeline.stages]]\ntype = \"normalize\"\nmean = "@ + number_value(values.mean)
        + "\nstd = "@ + number_value(values.std)
        + "\n\n[[pipeline.stages]]\ntype = \"infer\"\n"@
        + "\n[[pipeline.stages]]\ntype = \"postprocess\"\nthreshold = "@ + number_value(
        values.threshold,
    ) + "\noutput_type = \"binary\"\n"@
}

/// The starter config for a model: what the registry knows is filled in, and
/// what is missing is marked.
pub open spec fn starter_text(
    schema: Option<ModelSchemaConfig>,
    values: TrainingParams,
    name: Seq<char>,
    version: Seq<char>,
) -> Seq<char> {
    server_sections(name, version) + schema_sections(schema) + stage_sections(schema, values)
}

/// Writes the starter config for a model.
///
/// The numbers among `values` are decimal texts, and stand in the config as they
/// are.
pub fn starter_config(
    schema: &Option<ModelSchemaConfig>,
    values: &TrainingParams,
    name: &str,
    version: &str,
) -> (text: String)
    ensures
        text@ == starter_text(*schema, *values, name@, version@),
{
    let mut out = String::new();
    push_server_sections(&mut out, name, version);
    match schema {
        Some(schema) => {
            push_tensor_sections(&mut out, "inputs", &schema.inputs);
            push_tensor_sections(&mut out, "outputs", &schema.outputs);
        },
        None => {
            out.append("\n# TODO: add [[model_schema.inputs]] and [[model_schema.outputs]]\n");
        },
    }
    assert(out@ =~= server_sections(name@, version@) + schema_sections(*schema));
    push_stage_sections(&mut out, schema, values);
    assert(out@ =~= starter_text(*schema, *values, name@, version@));
    out
}

/// Appends the sections up to the model schema.
fn push_server_sections(out: &mut String, name: &str, version: &str)
    ensures
        final(out)@ == old(out)@ + server_sections(name@, version@),
{
    let ghost start = out@;
    out.append(
        "[grpc]\nhost = \"0.0.0.0\"\nport = 50051\nstream_poll_interval_ms = 1\nrequest_timeout_ms = 5000\n",
    );
    out.append("\n[backend]\ntype = \"onnx_runtime\"\n");
    out.append("\n[registry]\ntype = \"mlflow\"\nuri = \"\" # TODO\nmodel_name = ");
    push_quoted(out, name);
    out.append("\nmodel_version = ");
    push_quoted(out, version);
    out.append("\n\n[store]\ntype = \"redis\"\nurl = \"redis://localhost:6379\"\n");
    out.append("\n[metrics]\nport = 9090\n");
    assert(out@ =~= start + server_sections(name@, version@));
}

/// Appends the sections of the tensors on one side of the model schema.
fn push_tensor_sections(out: &mut String, side: &str, tensors: &Vec<TensorSpec>)
    ensures
        final(out)@ == old(out)@ + tensor_sections(side@, tensors@),
{
    let ghost start = out@;
    let ghost all = tensors@;
    let count = tensors.len();
    assert(out@ =~= start + tensor_sections(side@, all.take(0)));
    for i in 0..count
        invariant
            all == tensors@,
            count == all.len(),
            out@ == start + tensor_sections(side@, all.take(i as int)),
    {
        let ghost before = out@;
        out.append("\n[[model_schema.");
        out.append(side);
        out.append("]]\nname = ");
        push_quoted(out, tensors[i].name.as_str());
        out.append("\ndtype = ");
        push_quoted(out, tensors[i].dtype.as_str());
        out.append("\nshape = ");
        push_list(out, &tensors[i].shape);
        out.append("\n");
        proof {
            let next = all.take(i + 1);
            assert(out@ =~= before + tensor_section(side@, all[i as int]));
            assert(next.drop_last() =~= all.take(i as int));
            assert(next.last() == all[i as int]);
            assert(out@ =~= start + tensor_sections(side@, next));
        }
    }
    assert(all.take(count as int) =~= all);
}

/// Appends the shape of the model's first input.
fn push_shape(out: &mut String, schema: &Option<ModelSchemaConfig>)
    ensures
        final(out)@ == old(out)@ + shape_value(*schema),
{
    match schema {
        Some(schema) => {
            if schema.inputs.len() > 0 {
                push_list(out, &schema.inputs[0].shape);
            } else {
                out.append("[] # TODO");
            }
        },
        None => {
            out.append("[] # TODO");
        },
    }
}

/// Appends a number that was logged, or a zero that is to be filled in.
fn push_number(out: &mut String, number: &Option<String>)
    ensures
        final(out)@ == old(out)@ + number_value(*number),
{
    match number {
        Some(number) => {
            out.append(number.as_str());
        },
        None => {
            out.append("0.0 # TODO");
        },
    }
}

/// Appends the sections of the stages.
fn push_stage_sections(
    out: &mut String,
    schema: &Option<ModelSchemaConfig>,
    values: &TrainingParams,
)
    ensures
        final(out)@ == old(out)@ + stage_sections(*schema, *values),
{
    let ghost start = out@;
    out.append("\n[[pipeline.stages]]\ntype = \"impute\"\ndefault_value = 0.0\n");
    out.append("\n[[pipeline.stages]]\ntype = \"validate\"\nexpected_shape = ");
    push_shape(out, schema);
    out.append("\n\n[[pipeline.stages]]\ntype = \"clip\"\nmin = ");
    push_number(out, &values.clip_min);
    out.append("\nmax = ");
    push_number(out, &values.clip_max);
    out.append("\n\n[[pipeline.stages]]\ntype = \"normalize\"\nmean = ");
    push_number(out, &values.mean);
    out.append("\nstd = ");
    push_number(out, &values.std);
    out.append("\n\n[[pipeline.stages]]\ntype = \"infer\"\n");
    out.append("\n[[pipeline.stages]]\ntype = \"postprocess\"\nthreshold = ");
    push_number(out, &values.threshold);
    out.append("\noutput_type = \"binary\"\n");
    assert(out@ =~= start + stage_sections(*schema, *values));
}

/// Law: a starter config has the tensors of the schema, in order, each with its
/// name, its data type and its shape.
pub proof fn law_tensor_sections_grow_by_one(
    side: Seq<char>,
    tensors: Seq<TensorSpec>,
    tensor: TensorSpec,
)
    ensures
        tensor_sections(side, Seq::<TensorSpec>::empty()) == Seq::<char>::empty(),
        tensor_sections(side, tensors.push(tensor)) == tensor_sections(side, tensors) + (
        "\n[[model_schema."@ + side + "]]\nname = "@ + crate::text::quoted_text(tensor.name@)
            + "\ndtype = "@ + crate::text::quoted_text(tensor.dtype@) + "\nshape = "@
            + crate::text::list_text(crate::text::signed_ints(tensor.shape@)) + "\n"@),
{
    assert(tensors.push(tensor).drop_last() =~= tensors);
}

/// Law: what the registry knows stands in a starter config as it is: the name
/// and the version, inputs before outputs, the shape of the first input as the
/// expected one, and each number at its place.
pub proof fn law_starter_config_has_what_is_known(
    schema: ModelSchemaConfig,
    mean: String,
    std: String,
    clip_min: String,
    clip_max: String,
    threshold: String,
    name: Seq<char>,
    version: Seq<char>,
)
    requires
        schema.inputs@.len() > 0,
    ensures
        starter_text(
            Some(schema),
            TrainingParams {
                mean: Some(mean),
                std: Some(std),
                clip_min: Some(clip_min),
                clip_max: Some(clip_max),
                threshold: Some(threshold),
            },
            name,
            version,
        ) == server_sections(name, version) + (tensor_sections("inputs"@, schema.inputs@)
            + tensor_sections("outputs"@, schema.outputs@)) + (
        "\n[[pipeline.stages]]\ntype = \"impute\"\ndefault_value = 0.0\n"@
            + "\n[[pipeline.stages]]\ntype = \"validate\"\nexpected_shape = "@
            + crate::text::list_text(crate::text::signed_ints(schema.inputs@[0].shape@))
            + "\n\n[[pipeline.stages]]\ntype = \"clip\"\nmin = "@ + clip_min@ + "\nmax = "@
            + clip_max@ + "\n\n[[pipeline.stages]]\ntype = \"normalize\"\nmean = "@ + mean@
            + "\nstd = "@ + std@ + "\n\n[[pipeline.stages]]\ntype = \"infer\"\n"@
            + "\n[[pipeline.stages]]\ntype = \"postprocess\"\nthreshold = "@ + threshold@
            + "\noutput_type = \"binary\"\n"@),
{
}

/// Law: the sections up to the schema name the model and its version, and leave
/// the address of the registry to be filled in.
pub proof fn law_server_sections_name_the_model(name: Seq<char>, version: Seq<char>)
    ensures
        server_sections(name, version)
            == "[grpc]\nhost = \"0.0.0.0\"\nport = 50051\nstream_poll_interval_ms = 1\nrequest_timeout_ms = 5000\n"@
            + "\n[backend]\ntype = \"onnx_runtime\"\n"@
            + "\n[registry]\ntype = \"mlflow\"\nuri = \"\" # TODO\nmodel_name = "@
            + crate::text::quoted_text(name) + "\nmodel_version = "@ + crate::text::quoted_text(
            version,
        ) + "\n\n[store]\ntype = \"redis\"\nurl = \"redis://localhost:6379\"\n"@
            + "\n[metrics]\nport = 9090\n"@,
{
}

/// Law: what the registry does not know is marked.
pub proof fn law_starter_config_marks_what_is_missing(schema: ModelSchemaConfig)
    ensures
        number_value(None) == "0.0 # TODO"@,
        shape_value(None) == "[] # TODO"@,
        schema.inputs@.len() == 0 ==> shape_value(Some(schema)) == "[] # TODO"@,
        schema_sections(None)
            == "\n# TODO: add [[model_schema.inputs]] and [[model_schema.outputs]]\n"@,
{
}

} // verus!
