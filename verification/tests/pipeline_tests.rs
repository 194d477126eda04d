use trtx::builder::network_flags;
use trtx::builder::MemoryPoolType;
use trtx::executor::build_engine_from_onnx;
use trtx::run_onnx_with_tensorrt;
use trtx::run_onnx_zeroed;
use trtx::Builder;
use trtx::Error;
use trtx::Logger;
use trtx::OnnxParser;
use trtx::Runtime;
use trtx::TensorInput;

fn model_blob(tensors: &[(&str, &[u32])]) -> Vec<u8> {
    let mut out = vec![0x54u8, 0x58, 0x4d, 0x44];
    out.extend_from_slice(&(tensors.len() as u32).to_le_bytes());
    for (name, dims) in tensors {
        out.push(name.len() as u8);
        out.extend_from_slice(name.as_bytes());
        out.push(dims.len() as u8);
        for d in *dims {
            out.extend_from_slice(&d.to_le_bytes());
        }
    }
    out
}

#[test]
fn test_tensor_input_creation() {
    let input = TensorInput {
        name: "input".to_string(),
        shape: vec![1, 3, 224, 224],
        data: vec![0.0f32; 1 * 3 * 224 * 224].iter().map(|f| f.to_bits()).collect(),
    };

    assert_eq!(input.name, "input");
    assert_eq!(input.shape, vec![1, 3, 224, 224]);
    assert_eq!(input.data.len(), 1 * 3 * 224 * 224);
}

#[test]
fn test_onnx_parser_creation() {
    let logger = Logger::stderr().unwrap();
    let builder = Builder::new(&logger).unwrap();
    let network = builder
        .create_network(network_flags::EXPLICIT_BATCH)
        .unwrap();

    let parser = OnnxParser::new(&network, &logger);
    assert!(parser.is_ok());
}

#[test]
fn test_build_empty_network_fails() {
    // Building from an empty network must fail, never silently produce a
    // usable empty engine.
    let logger = Logger::stderr().unwrap();
    let builder = Builder::new(&logger).unwrap();
    let network = builder
        .create_network(network_flags::EXPLICIT_BATCH)
        .unwrap();
    let mut config = builder.create_config().unwrap();
    config
        .set_memory_pool_limit(MemoryPoolType::Workspace, 1 << 30)
        .unwrap();

    let result = builder.build_serialized_network(&network, &config);
    assert!(matches!(result, Err(Error::Runtime(_))));
}

#[test]
fn test_set_memory_pool_limits() {
    let logger = Logger::stderr().unwrap();
    let builder = Builder::new(&logger).unwrap();
    let mut config = builder.create_config().unwrap();
    assert!(config.set_memory_pool_limit(MemoryPoolType::Workspace, 1 << 30).is_ok());
    assert!(config.set_memory_pool_limit(MemoryPoolType::DlaManagedSram, 1 << 20).is_ok());
    assert!(config.set_memory_pool_limit(MemoryPoolType::DlaLocalDram, 1 << 20).is_ok());
    assert!(config.set_memory_pool_limit(MemoryPoolType::DlaGlobalDram, 1 << 20).is_ok());
}

#[test]
fn test_parser_rejects_garbage() {
    let logger = Logger::stderr().unwrap();
    let builder = Builder::new(&logger).unwrap();
    let mut network = builder
        .create_network(network_flags::EXPLICIT_BATCH)
        .unwrap();
    let parser = OnnxParser::new(&network, &logger).unwrap();

    let result = parser.parse(&mut network, &[1u8, 2, 3, 4, 5]);
    assert!(matches!(result, Err(Error::Runtime(_))));
}

#[test]
fn test_build_engine_from_parsed_model() {
    let blob = model_blob(&[("input", &[1, 3, 224, 224]), ("output", &[1, 1000])]);
    let logger = Logger::stderr().unwrap();
    let engine_data = build_engine_from_onnx(&logger, &blob).unwrap();
    assert!(!engine_data.is_empty());
}

#[test]
fn test_engine_round_trip_names() {
    let blob = model_blob(&[("input", &[1, 3]), ("output", &[2])]);
    let logger = Logger::stderr().unwrap();
    let engine_data = build_engine_from_onnx(&logger, &blob).unwrap();

    let runtime = Runtime::new(&logger).unwrap();
    let engine = runtime.deserialize_cuda_engine(&engine_data).unwrap();
    assert_eq!(engine.get_nb_io_tensors().unwrap(), 2);
    assert_eq!(engine.get_tensor_name(0).unwrap(), "input");
    assert_eq!(engine.get_tensor_name(1).unwrap(), "output");
}

#[test]
fn test_deserialize_rejects_corrupt_blob() {
    let logger = Logger::stderr().unwrap();
    let runtime = Runtime::new(&logger).unwrap();
    let result = runtime.deserialize_cuda_engine(&[0u8; 32]);
    assert!(matches!(result, Err(Error::Runtime(_))));
}

#[test]
fn test_get_tensor_name_out_of_range() {
    // An index outside [0, count) fails with a runtime-class error.
    let blob = model_blob(&[("only", &[1])]);
    let logger = Logger::stderr().unwrap();
    let engine_data = build_engine_from_onnx(&logger, &blob).unwrap();
    let runtime = Runtime::new(&logger).unwrap();
    let engine = runtime.deserialize_cuda_engine(&engine_data).unwrap();

    assert!(engine.get_tensor_name(0).is_ok());
    assert!(matches!(engine.get_tensor_name(1), Err(Error::Runtime(_))));
    assert!(matches!(engine.get_tensor_name(-1), Err(Error::Runtime(_))));
    assert!(matches!(engine.get_tensor_name(i32::MAX), Err(Error::Runtime(_))));
}

#[test]
fn test_execution_context_binding() {
    let blob = model_blob(&[("input", &[4]), ("output", &[4])]);
    let logger = Logger::stderr().unwrap();
    let engine_data = build_engine_from_onnx(&logger, &blob).unwrap();
    let runtime = Runtime::new(&logger).unwrap();
    let engine = runtime.deserialize_cuda_engine(&engine_data).unwrap();
    let mut context = engine.create_execution_context().unwrap();

    // A launch before every address is bound is rejected.
    let early = context.enqueue_v3(trtx::cuda::get_default_stream());
    assert!(matches!(early, Err(Error::Cuda(_))));

    // Unknown names and embedded null bytes are rejected.
    let unknown = context.set_tensor_address("missing", 0);
    assert!(matches!(unknown, Err(Error::InvalidArgument(_))));
    let embedded_null = context.set_tensor_address("in\0put", 0);
    assert!(matches!(embedded_null, Err(Error::StringConversion(_))));

    assert!(context.set_tensor_address("input", 0).is_ok());
    assert!(context.set_tensor_address("output", 1).is_ok());
    assert!(context.enqueue_v3(trtx::cuda::get_default_stream()).is_ok());
}

#[test]
fn test_run_zeroed_invalid_model() {
    // A degenerate model must fail during ingest, before any build or
    // execution, and return no outputs.
    let dummy_onnx = vec![0u8; 100];
    let inputs = vec![("input".to_string(), vec![1, 3, 224, 224])];

    let result = run_onnx_zeroed(&dummy_onnx, &inputs);
    match result {
        Err(Error::Runtime(msg)) => assert_eq!(msg, "Model bytes are malformed"),
        _ => panic!("Expected an ingest failure"),
    }
}

#[test]
fn test_run_zeroed_produces_outputs() {
    let blob = model_blob(&[("input", &[1, 3]), ("output", &[5])]);
    let inputs = vec![("input".to_string(), vec![1usize, 3])];

    let outputs = run_onnx_zeroed(&blob, &inputs).unwrap();
    assert_eq!(outputs.len(), 1);
    assert_eq!(outputs[0].name, "output");
    assert_eq!(outputs[0].shape, vec![1, 1000]);
    assert_eq!(outputs[0].data.len(), 1000);
    assert!(outputs[0].data.iter().all(|&b| f32::from_bits(b) == 0.0));
}

#[test]
fn test_run_with_tensors_filters_inputs() {
    let blob = model_blob(&[("a", &[2]), ("b", &[2]), ("c", &[2])]);
    let inputs = vec![TensorInput {
        name: "b".to_string(),
        shape: vec![2],
        data: vec![1.5f32.to_bits(), 2.5f32.to_bits()],
    }];

    let outputs = run_onnx_with_tensorrt(&blob, &inputs).unwrap();
    assert_eq!(outputs.len(), 2);
    assert_eq!(outputs[0].name, "a");
    assert_eq!(outputs[1].name, "c");
}

#[test]
fn test_write_model_blob_matches_format() {
    // The library's own blob writer lays out exactly the documented
    // format.
    let slots = vec![
        trtx::codec::TensorSlot { name: b"input".to_vec(), dims: vec![1, 3] },
        trtx::codec::TensorSlot { name: b"output".to_vec(), dims: vec![2] },
    ];
    let written = trtx::codec::write_model_blob(&slots);
    let manual = model_blob(&[("input", &[1, 3]), ("output", &[2])]);
    assert_eq!(written, manual);
}

#[test]
fn test_duplicate_tensor_names() {
    // Two slots may carry the same name; binding the name binds both, and
    // both surface as outputs when the name is not among the inputs.
    let blob = model_blob(&[("twin", &[1]), ("twin", &[1])]);
    let outputs = run_onnx_zeroed(&blob, &[]).unwrap();
    assert_eq!(outputs.len(), 2);
    assert_eq!(outputs[0].name, "twin");
    assert_eq!(outputs[1].name, "twin");
}

#[test]
fn test_run_fails_on_invalid_utf8_name() {
    // A slot name that is not valid UTF-8 surfaces as a UTF-8 error when
    // the pipeline enumerates the tensors.
    let mut blob = vec![0x54u8, 0x58, 0x4d, 0x44];
    blob.extend_from_slice(&1u32.to_le_bytes());
    blob.push(1); // name length
    blob.push(0xff); // not valid UTF-8
    blob.push(1); // one dimension
    blob.extend_from_slice(&1u32.to_le_bytes());

    let result = run_onnx_zeroed(&blob, &[]);
    assert!(matches!(result, Err(Error::Utf8(_))));
}

#[test]
fn test_run_with_tensorrt_empty_model_fails() {
    // A model blob that declares no tensors parses but must not build.
    let blob = model_blob(&[]);
    let result = run_onnx_with_tensorrt(&blob, &[]);
    match result {
        Err(Error::Runtime(msg)) => assert_eq!(msg, "Network definition is empty"),
        _ => panic!("Expected a build failure"),
    }
}
