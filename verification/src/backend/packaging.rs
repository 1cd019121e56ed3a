//! Generates a Triton Inference Server `config.pbtxt` from the model schema.

use vstd::prelude::*;

use crate::config::{ModelSchemaConfig, TensorSpec};
use crate::text::{push_joined, same_text};

verus! {

/// A data type that Triton has no token for.
#[derive(Debug)]
pub struct UnsupportedDtype {
    /// The data type as the schema names it.
    pub dtype: String,
}

impl UnsupportedDtype {
    /// The rendered error.
    pub open spec fn message_text(self) -> Seq<char> {
        "packaging: unsupported dtype '"@ + self.dtype@ + "'"@
    }

    /// Renders the error.
    pub fn message(&self) -> (text: String)
        ensures
            text@ == self.message_text(),
    {
        let mut out = String::new();
        out.append("packaging: unsupported dtype '");
        out.append(self.dtype.as_str());
        out.append("'");
        assert(out@ =~= self.message_text());
        out
    }
}

/// The Triton token for a data type of the model schema, if there is one.
pub open spec fn dtype_token(dtype: Seq<char>) -> Option<Seq<char>> {
    if dtype == "float32"@ {
        Some("TYPE_FP32"@)
    } else if dtype == "float64"@ {
        Some("TYPE_FP64"@)
    } else if dtype == "int8"@ {
        Some("TYPE_INT8"@)
    } else if dtype == "int16"@ {
        Some("TYPE_INT16"@)
    } else if dtype == "int32"@ {
        Some("TYPE_INT32"@)
    } else if dtype == "int64"@ {
        Some("TYPE_INT64"@)
    } else if dtype == "uint8"@ {
        Some("TYPE_UINT8"@)
    } else if dtype == "uint16"@ {
        Some("TYPE_UINT16"@)
    } else if dtype == "uint32"@ {
        Some("TYPE_UINT32"@)
    } else if dtype == "uint64"@ {
        Some("TYPE_UINT64"@)
    } else if dtype == "bool"@ {
        Some("TYPE_BOOL"@)
    } else if dtype == "string"@ {
        Some("TYPE_STRING"@)
    } else {
        None
    }
}

/// Maps a data type of the model schema to its Triton token.
pub fn triton_dtype(dtype: &str) -> (token: Result<&'static str, UnsupportedDtype>)
    ensures
        token is Ok <==> dtype_token(dtype@) is Some,
        token is Ok ==> Some(token->Ok_0@) == dtype_token(dtype@),
        token is Err ==> token->Err_0.dtype@ == dtype@,
{
    if same_text(dtype, "float32") {
        Ok("TYPE_FP32")
    } else if same_text(dtype, "float64") {
        Ok("TYPE_FP64")
    } else if same_text(dtype, "int8") {
        Ok("TYPE_INT8")
    } else if same_text(dtype, "int16") {
        Ok("TYPE_INT16")
    } else if same_text(dtype, "int32") {
        Ok("TYPE_INT32")
    } else if same_text(dtype, "int64") {
        Ok("TYPE_INT64")
    } else if same_text(dtype, "uint8") {
        Ok("TYPE_UINT8")
    } else if same_text(dtype, "uint16") {
        Ok("TYPE_UINT16")
    } else if same_text(dtype, "uint32") {
        Ok("TYPE_UINT32")
    } else if same_text(dtype, "uint64") {
        Ok("TYPE_UINT64")
    } else if same_text(dtype, "bool") {
        Ok("TYPE_BOOL")
    } else if same_text(dtype, "string") {
        Ok("TYPE_STRING")
    } else {
        Err(UnsupportedDtype { dtype: dtype.to_owned() })
    }
}

/// True if every tensor has a data type that Triton knows.
pub open spec fn dtypes_supported(tensors: Seq<TensorSpec>) -> bool {
    forall|i: int| 0 <= i < tensors.len() ==> dtype_token((#[trigger] tensors[i]).dtype@) is Some
}

/// Position of the first tensor whose data type Triton does not know, or the
/// number of tensors if there is none.
pub open spec fn first_unsupported(tensors: Seq<TensorSpec>) -> int
    decreases tensors.len(),
{
    if tensors.len() == 0 || dtype_token(tensors[0].dtype@) is None {
        0
    } else {
        1 + first_unsupported(tensors.skip(1))
    }
}

/// The Triton tokens for the data types of all tensors, in order.
fn collect_dtypes(tensors: &Vec<TensorSpec>) -> (tokens: Result<
    Vec<&'static str>,
    UnsupportedDtype,
>)
    ensures
        tokens is Ok <==> dtypes_supported(tensors@),
        tokens is Ok ==> tokens->Ok_0@.len() == tensors@.len() && forall|i: int|
            0 <= i < tensors@.len() ==> Some((#[trigger] tokens->Ok_0@[i])@) == dtype_token(
                tensors@[i].dtype@,
            ),
        tokens is Err ==> 0 <= first_unsupported(tensors@) < tensors@.len()
            && tokens->Err_0.dtype@ == tensors@[first_unsupported(tensors@)].dtype@,
{
    let mut tokens: Vec<&'static str> = Vec::new();
    let count = tensors.len();
    let ghost all = tensors@;
    assert(all.skip(0) =~= all);
    for i in 0..count
        invariant
            all == tensors@,
            count == all.len(),
            tokens@.len() == i,
            first_unsupported(all) == i + first_unsupported(all.skip(i as int)),
            forall|j: int|
                0 <= j < i ==> Some((#[trigger] tokens@[j])@) == dtype_token(all[j].dtype@),
            forall|j: int| 0 <= j < i ==> dtype_token((#[trigger] all[j]).dtype@) is Some,
    {
        assert(all.skip(i as int)[0] == all[i as int]);
        assert(all.skip(i as int).skip(1) =~= all.skip(i + 1));
        match triton_dtype(tensors[i].dtype.as_str()) {
            Ok(token) => {
                tokens.push(token);
            },
            Err(error) => {
                assert(dtype_token(all[i as int].dtype@) is None);
                return Err(error);
            },
        }
    }
    Ok(tokens)
}

/// The entry for one tensor with a data type token, with or without a comma
/// behind it.
pub open spec fn tensor_entry(tensor: TensorSpec, token: Seq<char>, last: bool) -> Seq<char> {
    "  {\n    name: \""@ + tensor.name@ + "\"\n    data_type: "@ + token + "\n    dims: [ "@
        + crate::text::joined_text(crate::text::signed_ints(tensor.shape@)) + (if last {
        " ]\n  }\n"@
    } else {
        " ]\n  },\n"@
    })
}

/// The entries for the first `n` tensors, one after the other.
pub open spec fn tensor_entries(
    tensors: Seq<TensorSpec>,
    tokens: Seq<Seq<char>>,
    n: int,
) -> Seq<char>
    decreases n,
{
    if n <= 0 {
        Seq::empty()
    } else {
        tensor_entries(tensors, tokens, n - 1) + tensor_entry(
            tensors[n - 1],
            tokens[n - 1],
            n == tensors.len(),
        )
    }
}

/// The block that declares the tensors of one field, as far as there are tokens
/// for them.
pub open spec fn tensor_block(
    field: Seq<char>,
    tensors: Seq<TensorSpec>,
    tokens: Seq<Seq<char>>,
) -> Seq<char> {
    let count = if tensors.len() <= tokens.len() {
        tensors.len() as int
    } else {
        tokens.len() as int
    };
    "\n"@ + field + " [\n"@ + tensor_entries(tensors, tokens, count) + "]\n"@
}

/// The texts of a list of tokens.
pub open spec fn token_texts(tokens: Seq<&str>) -> Seq<Seq<char>> {
    tokens.map_values(|token: &str| token@)
}

/// The Triton tokens for the data types of a list of tensors.
pub open spec fn dtype_tokens(tensors: Seq<TensorSpec>) -> Seq<Seq<char>> {
    tensors.map_values(|tensor: TensorSpec| dtype_token(tensor.dtype@)->Some_0)
}

/// Appends the block that declares the tensors of one field, given the tokens
/// of their data types.
pub fn write_tensor_block(
    out: &mut String,
    field: &str,
    tensors: &Vec<TensorSpec>,
    dtypes: &Vec<&str>,
)
    ensures
        final(out)@ == old(out)@ + tensor_block(field@, tensors@, token_texts(dtypes@)),
{
    let ghost start = out@;
    let ghost tokens = token_texts(dtypes@);
    out.append("\n");
    out.append(field);
    out.append(" [\n");
    let ghost opened = out@;
    let count: usize = if tensors.len() <= dtypes.len() {
        tensors.len()
    } else {
        dtypes.len()
    };
    assert(out@ =~= opened + tensor_entries(tensors@, tokens, 0));
    for i in 0..count
        invariant
            count <= tensors@.len(),
            count <= dtypes@.len(),
            tokens == token_texts(dtypes@),
            out@ == opened + tensor_entries(tensors@, tokens, i as int),
    {
        let ghost before = out@;
        out.append("  {\n    name: \"");
        out.append(tensors[i].name.as_str());
        out.append("\"\n    data_type: ");
        out.append(dtypes[i]);
        out.append("\n    dims: [ ");
        push_joined(out, &tensors[i].shape);
        if i < tensors.len() - 1 {
            out.append(" ]\n  },\n");
        } else {
            out.append(" ]\n  }\n");
        }
        proof {
            let entry = tensor_entry(
                tensors@[i as int],
                tokens[i as int],
                i + 1 == tensors@.len(),
            );
            assert(out@ =~= before + entry);
            assert(out@ =~= opened + tensor_entries(tensors@, tokens, i + 1));
        }
    }
    out.append("]\n");
    assert(out@ =~= start + tensor_block(field@, tensors@, tokens));
}

/// The config for a model.
pub open spec fn triton_config_text(model_name: Seq<char>, schema: ModelSchemaConfig) -> Seq<char> {
    "name: \""@ + model_name + "\"\nbackend: \"onnxruntime\"\nmax_batch_size: 0\n"@ + tensor_block(
        "input"@,
        schema.inputs@,
        dtype_tokens(schema.inputs@),
    ) + tensor_block("output"@, schema.outputs@, dtype_tokens(schema.outputs@))
}

/// Generates a Triton config from the model name and schema.
///
/// All data types are looked up first, inputs before outputs, so that no
/// partial config is ever produced. Where the text goes is the caller's
/// business.
pub fn generate_triton_config(model_name: &str, schema: &ModelSchemaConfig) -> (config: Result<
    String,
    UnsupportedDtype,
>)
    ensures
        config is Ok <==> dtypes_supported(schema.inputs@) && dtypes_supported(schema.outputs@),
        config is Ok ==> config->Ok_0@ == triton_config_text(model_name@, *schema),
        config is Err && !dtypes_supported(schema.inputs@) ==> config->Err_0.dtype@
            == schema.inputs@[first_unsupported(schema.inputs@)].dtype@,
        config is Err && dtypes_supported(schema.inputs@) ==> config->Err_0.dtype@
            == schema.outputs@[first_unsupported(schema.outputs@)].dtype@,
{
    let input_dtypes = match collect_dtypes(&schema.inputs) {
        Ok(tokens) => tokens,
        Err(error) => {
            return Err(error);
        },
    };
    let output_dtypes = match collect_dtypes(&schema.outputs) {
        Ok(tokens) => tokens,
        Err(error) => {
            return Err(error);
        },
    };
    assert(token_texts(input_dtypes@) =~= dtype_tokens(schema.inputs@));
    assert(token_texts(output_dtypes@) =~= dtype_tokens(schema.outputs@));
    let mut out = String::new();
    out.append("name: \"");
    out.append(model_name);
    out.append("\"\nbackend: \"onnxruntime\"\nmax_batch_size: 0\n");
    write_tensor_block(&mut out, "input", &schema.inputs, &input_dtypes);
    write_tensor_block(&mut out, "output", &schema.outputs, &output_dtypes);
    assert(out@ =~= triton_config_text(model_name@, *schema));
    Ok(out)
}

/// Law: the data types that Triton has a token for.
pub proof fn law_which_types_have_tokens(dtype: Seq<char>)
    ensures
        dtype_token(dtype) is Some <==> dtype == "float32"@ || dtype == "float64"@ || dtype
            == "int8"@ || dtype == "int16"@ || dtype == "int32"@ || dtype == "int64"@ || dtype
            == "uint8"@ || dtype == "uint16"@ || dtype == "uint32"@ || dtype == "uint64"@ || dtype
            == "bool"@ || dtype == "string"@,
{
}

/// Law: each data type has a token of its own, which names it.
pub proof fn law_each_type_has_its_token()
    ensures
        dtype_token("float32"@) == Some("TYPE_FP32"@),
        dtype_token("float64"@) == Some("TYPE_FP64"@),
        dtype_token("int8"@) == Some("TYPE_INT8"@),
        dtype_token("int16"@) == Some("TYPE_INT16"@),
        dtype_token("int32"@) == Some("TYPE_INT32"@),
        dtype_token("int64"@) == Some("TYPE_INT64"@),
        dtype_token("uint8"@) == Some("TYPE_UINT8"@),
        dtype_token("uint16"@) == Some("TYPE_UINT16"@),
        dtype_token("uint32"@) == Some("TYPE_UINT32"@),
        dtype_token("uint64"@) == Some("TYPE_UINT64"@),
        dtype_token("bool"@) == Some("TYPE_BOOL"@),
        dtype_token("string"@) == Some("TYPE_STRING"@),
{
    reveal_strlit("float32");
    reveal_strlit("float64");
    reveal_strlit("int8");
    reveal_strlit("int16");
    reveal_strlit("int32");
    reveal_strlit("int64");
    reveal_strlit("uint8");
    reveal_strlit("uint16");
    reveal_strlit("uint32");
    reveal_strlit("uint64");
    reveal_strlit("bool");
    reveal_strlit("string");
    assert("float32"@.len() == 7 && "float64"@.len() == 7 && "int8"@.len() == 4 && "int16"@.len()
        == 5 && "int32"@.len() == 5 && "int64"@.len() == 5 && "uint8"@.len() == 5
        && "uint16"@.len() == 6 && "uint32"@.len() == 6 && "uint64"@.len() == 6 && "bool"@.len()
        == 4 && "string"@.len() == 6);
    assert("float32"@[5] == '3' && "float64"@[5] == '6');
    assert("int8"@[0] == 'i' && "bool"@[0] == 'b');
    assert("int16"@[3] == '1' && "int32"@[3] == '3' && "int64"@[3] == '6' && "uint8"@[3] == 't');
    assert("uint16"@[4] == '1' && "uint32"@[4] == '3' && "uint64"@[4] == '6' && "string"@[4]
        == 'n');
}

/// Law: the first tensor without a token is the one that is reported, and all
/// are supported if there is none.
pub proof fn law_first_unsupported_is_reported(tensors: Seq<TensorSpec>, i: int)
    requires
        0 <= i <= tensors.len(),
        forall|j: int| 0 <= j < i ==> dtype_token((#[trigger] tensors[j]).dtype@) is Some,
        i < tensors.len() ==> dtype_token(tensors[i].dtype@) is None,
    ensures
        dtypes_supported(tensors) <==> i == tensors.len(),
        first_unsupported(tensors) == i,
    decreases tensors.len(),
{
    if i < tensors.len() && dtypes_supported(tensors) {
        assert(dtype_token(tensors[i].dtype@) is Some);
    }
    if i > 0 {
        let rest = tensors.skip(1);
        assert(dtype_token(tensors[0].dtype@) is Some);
        assert forall|j: int| 0 <= j < i - 1 implies dtype_token(
            (#[trigger] rest[j]).dtype@,
        ) is Some by {
            assert(rest[j] == tensors[j + 1]);
        }
        if i < tensors.len() {
            assert(rest[i - 1] == tensors[i]);
        }
        law_first_unsupported_is_reported(rest, i - 1);
    }
}

/// Law: a block names its field and has one entry per tensor, in order, each
/// with the tensor's name, the token of its data type and every dimension, and a
/// comma behind it unless it is the last.
pub proof fn law_block_has_an_entry_per_tensor(
    field: Seq<char>,
    tensors: Seq<TensorSpec>,
    tokens: Seq<Seq<char>>,
    n: int,
)
    requires
        0 < n <= tensors.len(),
        n <= tokens.len(),
    ensures
        tensor_block(field, tensors, tokens) == "\n"@ + field + " [\n"@ + tensor_entries(
            tensors,
            tokens,
            if tensors.len() <= tokens.len() {
                tensors.len() as int
            } else {
                tokens.len() as int
            },
        ) + "]\n"@,
        tensor_entries(tensors, tokens, 0) == Seq::<char>::empty(),
        tensor_entries(tensors, tokens, n) == tensor_entries(tensors, tokens, n - 1) + ("  {\n    name: \""@
            + tensors[n - 1].name@ + "\"\n    data_type: "@ + tokens[n - 1] + "\n    dims: [ "@
            + crate::text::joined_text(crate::text::signed_ints(tensors[n - 1].shape@)) + (if n
            == tensors.len() {
            " ]\n  }\n"@
        } else {
            " ]\n  },\n"@
        })),
{
}

/// Law: a config names the model and the backend, and declares all inputs before
/// all outputs, with the tokens of their own data types.
pub proof fn law_config_declares_the_schema(model_name: Seq<char>, schema: ModelSchemaConfig, i: int)
    ensures
        triton_config_text(model_name, schema) == "name: \""@ + model_name
            + "\"\nbackend: \"onnxruntime\"\nmax_batch_size: 0\n"@ + tensor_block(
            "input"@,
            schema.inputs@,
            dtype_tokens(schema.inputs@),
        ) + tensor_block("output"@, schema.outputs@, dtype_tokens(schema.outputs@)),
        dtype_tokens(schema.inputs@).len() == schema.inputs@.len(),
        dtype_tokens(schema.outputs@).len() == schema.outputs@.len(),
        0 <= i < schema.inputs@.len() ==> dtype_tokens(schema.inputs@)[i] == dtype_token(
            schema.inputs@[i].dtype@,
        )->Some_0,
        0 <= i < schema.outputs@.len() ==> dtype_tokens(schema.outputs@)[i] == dtype_token(
            schema.outputs@[i].dtype@,
        )->Some_0,
{
}

/// Law: the message names the data type.
pub proof fn law_unsupported_message(error: UnsupportedDtype)
    ensures
        error.message_text() == "packaging: unsupported dtype '"@ + error.dtype@ + "'"@,
{
}

/// Law: tokens are seen as their texts, in order.
pub proof fn law_tokens_are_seen_as_texts(tokens: Seq<&str>, i: int)
    requires
        0 <= i < tokens.len(),
    ensures
        token_texts(tokens).len() == tokens.len(),
        token_texts(tokens)[i] == tokens[i]@,
{
}

} // verus!
