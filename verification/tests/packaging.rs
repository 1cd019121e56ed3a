use axon::backend::packaging::{generate_triton_config, triton_dtype, write_tensor_block};
use axon::config::{ModelSchemaConfig, TensorSpec};

fn spec(name: &str, dtype: &str, shape: Vec<i64>) -> TensorSpec {
    TensorSpec { name: name.to_owned(), dtype: dtype.to_owned(), shape }
}

#[test]
fn every_dtype_has_its_token() {
    let tokens = [
        ("float32", "TYPE_FP32"),
        ("float64", "TYPE_FP64"),
        ("int8", "TYPE_INT8"),
        ("int16", "TYPE_INT16"),
        ("int32", "TYPE_INT32"),
        ("int64", "TYPE_INT64"),
        ("uint8", "TYPE_UINT8"),
        ("uint16", "TYPE_UINT16"),
        ("uint32", "TYPE_UINT32"),
        ("uint64", "TYPE_UINT64"),
        ("bool", "TYPE_BOOL"),
        ("string", "TYPE_STRING"),
    ];
    for (dtype, token) in tokens {
        assert_eq!(triton_dtype(dtype).unwrap(), token);
    }
    assert_eq!(
        triton_dtype("float16").unwrap_err().message(),
        "packaging: unsupported dtype 'float16'"
    );
}

#[test]
fn config_for_one_input_and_two_outputs() {
    let schema = ModelSchemaConfig {
        inputs: vec![spec("features", "float32", vec![1, 32])],
        outputs: vec![spec("score", "float32", vec![1, 1]), spec("class", "int64", vec![-1])],
        schema_version: None,
    };
    let expected = "name: \"fraud\"\n\
        backend: \"onnxruntime\"\n\
        max_batch_size: 0\n\
        \n\
        input [\n\
        \x20 {\n\
        \x20   name: \"features\"\n\
        \x20   data_type: TYPE_FP32\n\
        \x20   dims: [ 1, 32 ]\n\
        \x20 }\n\
        ]\n\
        \n\
        output [\n\
        \x20 {\n\
        \x20   name: \"score\"\n\
        \x20   data_type: TYPE_FP32\n\
        \x20   dims: [ 1, 1 ]\n\
        \x20 },\n\
        \x20 {\n\
        \x20   name: \"class\"\n\
        \x20   data_type: TYPE_INT64\n\
        \x20   dims: [ -1 ]\n\
        \x20 }\n\
        ]\n";
    assert_eq!(generate_triton_config("fraud", &schema).unwrap(), expected);
}

#[test]
fn unsupported_input_dtype_is_reported_first() {
    let schema = ModelSchemaConfig {
        inputs: vec![spec("a", "float32", vec![1]), spec("b", "complex", vec![1])],
        outputs: vec![spec("c", "decimal", vec![1])],
        schema_version: None,
    };
    assert_eq!(generate_triton_config("m", &schema).unwrap_err().dtype, "complex");
    let schema = ModelSchemaConfig {
        inputs: vec![spec("a", "float32", vec![1])],
        outputs: vec![spec("c", "decimal", vec![1])],
        schema_version: None,
    };
    assert_eq!(generate_triton_config("m", &schema).unwrap_err().dtype, "decimal");
}

#[test]
fn block_stops_where_tokens_run_out() {
    let tensors = vec![spec("a", "bool", vec![]), spec("b", "bool", vec![2])];
    let mut out = String::from("x");
    write_tensor_block(&mut out, "input", &tensors, &vec!["TYPE_BOOL"]);
    assert_eq!(
        out,
        "x\ninput [\n  {\n    name: \"a\"\n    data_type: TYPE_BOOL\n    dims: [  ]\n  },\n]\n"
    );
    let mut empty = String::new();
    write_tensor_block(&mut empty, "output", &vec![], &vec![]);
    assert_eq!(empty, "\noutput [\n]\n");
}
