use axon::config::{ModelSchemaConfig, TensorSpec};
use axon::error::RegistryError;
use axon::registry::mlflow::{
    artifact_file_name, check_status, find_param, parse_model_schema, requested_version,
    require_run_id, resolve_latest, training_params, MlModelSignature, MlTensorEntry,
    MlTensorSpec, MlflowClient, Param, TrainingParams, VersionRequest,
};
use axon::registry::starter::starter_config;
use axon::registry::{expected_schema_version, ConfigSeed, RegisteredModel};

fn strings(items: &[&str]) -> Vec<String> {
    items.iter().map(|item| item.to_string()).collect()
}

fn param(key: &str, value: &str) -> Param {
    Param { key: key.to_owned(), value: value.to_owned() }
}

fn tensor(name: &str, shape: Vec<i64>) -> MlTensorEntry {
    MlTensorEntry {
        name: name.to_owned(),
        field_type: "tensor".to_owned(),
        tensor_spec: Some(MlTensorSpec { dtype: "float32".to_owned(), shape }),
    }
}

fn column(name: &str) -> MlTensorEntry {
    MlTensorEntry { name: name.to_owned(), field_type: "double".to_owned(), tensor_spec: None }
}

fn parse_error(result: Result<ModelSchemaConfig, RegistryError>) -> String {
    match result {
        Err(RegistryError::Parse(message)) => message,
        other => panic!("expected a parse error, got {other:?}"),
    }
}

#[test]
fn addresses_start_at_the_trimmed_base() {
    let client = MlflowClient::new("http://localhost:5000//");
    assert_eq!(client.tracking_uri, "http://localhost:5000");
    assert_eq!(
        client.latest_versions_url(),
        "http://localhost:5000/api/2.0/mlflow/registered-models/get-latest-versions"
    );
    assert_eq!(client.run_url(), "http://localhost:5000/api/2.0/mlflow/runs/get");
    assert_eq!(
        client.artifact_url(),
        "http://localhost:5000/model-versions/get-artifact"
    );
    assert_eq!(MlflowClient::new("///").tracking_uri, "");
}

#[test]
fn concrete_versions_pass_through() {
    assert!(matches!(requested_version("latest"), VersionRequest::AskLatest));
    assert!(matches!(requested_version("7"), VersionRequest::Concrete(v) if v == "7"));
    assert!(matches!(requested_version("Latest"), VersionRequest::Concrete(v) if v == "Latest"));
}

#[test]
fn latest_version_has_the_highest_number() {
    let pick = |items: &[&str]| resolve_latest("m", &strings(items)).unwrap();
    assert_eq!(pick(&["2", "10", "9"]), "10");
    assert_eq!(pick(&["abc", "1"]), "1");
    assert_eq!(pick(&["abc", "0", "xyz"]), "xyz");
    assert_eq!(pick(&["5", "+5", "05"]), "05");
    assert_eq!(pick(&["18446744073709551616", "3"]), "3");
    assert_eq!(pick(&["18446744073709551615", "3"]), "18446744073709551615");
}

#[test]
fn model_without_versions_is_not_found() {
    assert!(matches!(
        resolve_latest("fraud", &vec![]),
        Err(RegistryError::ModelNotFound { name }) if name == "fraud"
    ));
}

#[test]
fn success_codes_pass() {
    for code in [200u16, 204, 299] {
        assert!(check_status(code, "", "run").is_ok());
    }
    for code in [100u16, 199, 300, 404, 500] {
        assert!(check_status(code, "", "run").is_err());
    }
    assert!(matches!(
        check_status(404, "404 Not Found", "latest versions"),
        Err(RegistryError::Request(message))
            if message == "MLflow returned 404 Not Found for latest versions"
    ));
}

#[test]
fn artifact_is_named_after_model_and_version() {
    assert_eq!(artifact_file_name("fraud", "12"), "fraud_v12.onnx");
}

#[test]
fn last_logged_value_wins() {
    let params = vec![param("mean", "1"), param("std", "2"), param("mean", "3")];
    assert_eq!(find_param(&params, "mean"), Some("3".to_owned()));
    assert_eq!(find_param(&params, "std"), Some("2".to_owned()));
    assert_eq!(find_param(&params, "clip_min"), None);
    let found = training_params(&vec![
        param("threshold", "0.5"),
        param("clip_max", "3"),
        param("clip_min", "-3"),
        param("std", "2"),
    ]);
    assert_eq!(found.mean, None);
    assert_eq!(found.std, Some("2".to_owned()));
    assert_eq!(found.clip_min, Some("-3".to_owned()));
    assert_eq!(found.clip_max, Some("3".to_owned()));
    assert_eq!(found.threshold, Some("0.5".to_owned()));
}

#[test]
fn training_run_is_required() {
    assert_eq!(require_run_id(Some("abc".to_owned()), "m", "1").unwrap(), "abc");
    assert!(matches!(
        require_run_id(None, "m", "1"),
        Err(RegistryError::Parse(message)) if message
            == "model 'm' v1 has no associated training run; \
                params and schema cannot be seeded automatically"
    ));
}

#[test]
fn signature_becomes_a_schema() {
    let signature = Some(MlModelSignature {
        inputs: Ok(vec![tensor("x", vec![-1, 4])]),
        outputs: Ok(vec![tensor("y", vec![1]), tensor("z", vec![])]),
    });
    let schema = parse_model_schema(&signature).unwrap();
    assert_eq!(schema.inputs.len(), 1);
    assert_eq!(schema.inputs[0].name, "x");
    assert_eq!(schema.inputs[0].dtype, "float32");
    assert_eq!(schema.inputs[0].shape, vec![-1, 4]);
    assert_eq!(schema.outputs[0].name, "y");
    assert_eq!(schema.outputs[1].name, "z");
    assert_eq!(schema.outputs[1].shape, Vec::<i64>::new());
    assert_eq!(schema.schema_version, None);
}

#[test]
fn signature_has_to_be_there() {
    assert_eq!(
        parse_error(parse_model_schema(&None)),
        "MLmodel has no signature block; log the model with mlflow.models.infer_signature()"
    );
}

#[test]
fn signature_has_to_be_decoded() {
    let both = Some(MlModelSignature {
        inputs: Err("bad in".to_owned()),
        outputs: Err("bad out".to_owned()),
    });
    assert_eq!(
        parse_error(parse_model_schema(&both)),
        "failed to parse MLmodel signature inputs: bad in"
    );
    let second = Some(MlModelSignature {
        inputs: Ok(vec![column("c")]),
        outputs: Err("bad out".to_owned()),
    });
    assert_eq!(
        parse_error(parse_model_schema(&second)),
        "failed to parse MLmodel signature outputs: bad out"
    );
}

#[test]
fn signature_has_to_hold_tensors() {
    let signature = Some(MlModelSignature {
        inputs: Ok(vec![tensor("x", vec![1]), column("age")]),
        outputs: Ok(vec![column("label")]),
    });
    assert_eq!(
        parse_error(parse_model_schema(&signature)),
        "MLmodel signature field 'age' has type 'double', not 'tensor'; \
         axon only supports tensor inputs and outputs"
    );
}

#[test]
fn registry_schema_version_wins() {
    let model = |schema_version| RegisteredModel {
        name: "m".to_owned(),
        version: "1".to_owned(),
        local_path: "/tmp/m".to_owned(),
        schema_version,
    };
    let schema = |schema_version| ModelSchemaConfig {
        inputs: vec![],
        outputs: vec![],
        schema_version,
    };
    assert_eq!(expected_schema_version(&model(Some(3)), &schema(Some(2))), Some(3));
    assert_eq!(expected_schema_version(&model(None), &schema(Some(2))), Some(2));
    assert_eq!(expected_schema_version(&model(None), &schema(None)), None);
}

#[test]
fn default_seed_is_blank() {
    let seed = ConfigSeed::default();
    assert!(seed.model_schema.is_none());
    assert!(seed.mean.is_none() && seed.std.is_none());
    assert!(seed.clip_min.is_none() && seed.clip_max.is_none());
    assert!(seed.threshold.is_none());
}

fn logged(values: [Option<&str>; 5]) -> TrainingParams {
    let [mean, std, clip_min, clip_max, threshold] = values.map(|v| v.map(str::to_owned));
    TrainingParams { mean, std, clip_min, clip_max, threshold }
}

fn fraud_schema() -> ModelSchemaConfig {
    let spec = |name: &str, shape: Vec<i64>| TensorSpec {
        name: name.to_owned(),
        dtype: "float32".to_owned(),
        shape,
    };
    ModelSchemaConfig {
        inputs: vec![spec("features", vec![1, 32])],
        outputs: vec![spec("score", vec![1, 1])],
        schema_version: None,
    }
}

#[test]
fn starter_config_leaves_only_the_uri_blank() {
    let values = logged([Some("0.5"), Some("2.0"), Some("-3.0"), Some("3.0"), Some("0.75")]);
    let text = starter_config(&Some(fraud_schema()), &values, "fraud_demo", "1");
    assert_eq!(
        text,
        concat_lines(&[
            "[grpc]",
            "host = \"0.0.0.0\"",
            "port = 50051",
            "stream_poll_interval_ms = 1",
            "request_timeout_ms = 5000",
            "",
            "[backend]",
            "type = \"onnx_runtime\"",
            "",
            "[registry]",
            "type = \"mlflow\"",
            "uri = \"\" # TODO",
            "model_name = \"fraud_demo\"",
            "model_version = \"1\"",
            "",
            "[store]",
            "type = \"redis\"",
            "url = \"redis://localhost:6379\"",
            "",
            "[metrics]",
            "port = 9090",
            "",
            "[[model_schema.inputs]]",
            "name = \"features\"",
            "dtype = \"float32\"",
            "shape = [1, 32]",
            "",
            "[[model_schema.outputs]]",
            "name = \"score\"",
            "dtype = \"float32\"",
            "shape = [1, 1]",
            "",
            "[[pipeline.stages]]",
            "type = \"impute\"",
            "default_value = 0.0",
            "",
            "[[pipeline.stages]]",
            "type = \"validate\"",
            "expected_shape = [1, 32]",
            "",
            "[[pipeline.stages]]",
            "type = \"clip\"",
            "min = -3.0",
            "max = 3.0",
            "",
            "[[pipeline.stages]]",
            "type = \"normalize\"",
            "mean = 0.5",
            "std = 2.0",
            "",
            "[[pipeline.stages]]",
            "type = \"infer\"",
            "",
            "[[pipeline.stages]]",
            "type = \"postprocess\"",
            "threshold = 0.75",
            "output_type = \"binary\"",
        ])
    );
    assert_eq!(text.matches("TODO").count(), 1);
}

fn concat_lines(lines: &[&str]) -> String {
    lines.iter().map(|line| format!("{line}\n")).collect()
}

#[test]
fn starter_config_marks_what_is_missing() {
    let text = starter_config(&None, &logged([None; 5]), "m", "latest");
    assert_eq!(text.matches("0.0 # TODO\n").count(), 5);
    assert!(text.contains("expected_shape = [] # TODO\n"));
    assert!(text.contains("# TODO: add [[model_schema.inputs]] and [[model_schema.outputs]]\n"));
    let mut schema = fraud_schema();
    schema.inputs.clear();
    let text = starter_config(&Some(schema), &logged([None; 5]), "m", "latest");
    assert!(text.contains("expected_shape = [] # TODO\n"));
    assert!(!text.contains("model_schema.inputs"));
}

#[test]
fn starter_config_is_toml_whatever_the_names_are() {
    let name = "a \"b\" \\c\n\u{7f}\u{1b}\u{b5}";
    let mut schema = fraud_schema();
    schema.inputs[0].name = name.to_owned();
    let text = starter_config(&Some(schema), &logged([None; 5]), name, "1");
    assert!(text.contains("model_name = \"a \\\"b\\\" \\\\c\\u000A\\u007F\\u001B\u{b5}\"\n"));
    let table: toml::Table = text.parse().unwrap();
    assert_eq!(table["registry"]["model_name"].as_str(), Some(name));
    assert_eq!(table["model_schema"]["inputs"][0]["name"].as_str(), Some(name));
    assert_eq!(table["pipeline"]["stages"].as_array().unwrap().len(), 6);
}
