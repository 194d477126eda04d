//! The orchestration facade: given model bytes and named input tensors,
//! produce named output tensors.
//!
//! [`run_onnx_with_tensorrt`] composes the whole workflow: ingest the model
//! bytes into a network definition, build the serialized engine with a
//! fixed one-gibibyte workspace limit, deserialize it, bind one device
//! buffer per tensor slot, launch, synchronize, and read the outputs back.
//! The first failure of any stage surfaces as that stage's typed error and
//! no outputs are returned.
//!
//! Tensor role is decided purely by name: a slot whose name stands among
//! the caller's inputs is an input, every other slot is treated as an
//! output and read back with a fixed placeholder shape. Tensor element
//! values are carried as the bit patterns of the 32-bit floating point
//! data, four bytes per element on the device.

use vstd::prelude::*;
use vstd::utf8::*;

use crate::builder::network_flags;
use crate::builder::Builder;
use crate::builder::MemoryPoolType;
use crate::codec;
use crate::codec::SlotView;
use crate::cuda;
use crate::cuda::DeviceBuffer;
use crate::error::Error;
use crate::logger::LogHandler;
use crate::logger::Logger;
use crate::logger::StderrLogger;
use crate::onnx_parser::OnnxParser;
use crate::runtime::Runtime;

verus! {

/// Number of elements every output tensor is given at this layer: the
/// placeholder allocation used until engine metadata reports real shapes.
pub const OUTPUT_ELEMS: usize = 1000;

/// Input tensor for an execution: a name, a shape, and the data as the
/// bit patterns of its 32-bit floating point elements.
#[derive(Debug)]
pub struct TensorInput {
    /// Tensor name, matched against the engine's slot names.
    pub name: String,
    /// Shape, outermost dimension first.
    pub shape: Vec<usize>,
    /// Element bit patterns, in row-major order.
    pub data: Vec<u32>,
}

/// Output tensor from an execution: a name, a shape, and the data read
/// back from the device as 32-bit element bit patterns.
#[derive(Debug)]
pub struct TensorOutput {
    /// Tensor name, as the engine reports it.
    pub name: String,
    /// Shape, outermost dimension first.
    pub shape: Vec<usize>,
    /// Element bit patterns, in row-major order.
    pub data: Vec<u32>,
}

/// The names of a set of input tensors.
pub open spec fn input_names(inputs: Seq<TensorInput>) -> Seq<Seq<char>> {
    Seq::new(inputs.len(), |i: int| inputs[i].name@)
}

/// True when the tensor name (given as its stored bytes) decodes to one
/// of the given names.
pub open spec fn is_named_in(names: Seq<Seq<char>>, name_bytes: Seq<u8>) -> bool {
    exists|j: int| 0 <= j < names.len() && names[j] == decode_utf8(name_bytes)
}

/// The slots of the table that are treated as outputs: those whose name
/// stands among none of the given input names.
pub open spec fn output_slots(slots: Seq<SlotView>, names: Seq<Seq<char>>) -> Seq<SlotView> {
    slots.filter(|s: SlotView| !is_named_in(names, s.name))
}

/// The placeholder shape every output tensor carries at this layer.
pub open spec fn placeholder_shape() -> Seq<usize> {
    seq![1usize, 1000usize]
}

/// Relates an execution's outputs to the engine's slot table and the
/// input names: one output per non-input slot, in slot order, carrying
/// that slot's name, the placeholder shape, and all-zero data.
pub open spec fn outputs_match(
    slots: Seq<SlotView>,
    names: Seq<Seq<char>>,
    outs: Seq<TensorOutput>,
) -> bool {
    let filtered = output_slots(slots, names);
    &&& outs.len() == filtered.len()
    &&& forall|i: int|
        0 <= i < outs.len() ==> (#[trigger] outs[i].name)@ == decode_utf8(filtered[i].name)
            && outs[i].shape@ == placeholder_shape() && outs[i].data@ == Seq::new(
            OUTPUT_ELEMS as nat,
            |j: int| 0u32,
        )
}

/// True when every slot name of the table is valid UTF-8.
pub open spec fn all_names_valid(slots: Seq<SlotView>) -> bool {
    forall|i: int| 0 <= i < slots.len() ==> valid_utf8(#[trigger] slots[i].name)
}

/// Builds a serialized engine from model bytes: ingest the model into a
/// fresh network definition, bound the workspace pool at one gibibyte,
/// and build. Fails with the ingest error when the bytes are not a
/// well-formed model blob, and with the build error when the model
/// declares no tensor slots.
pub fn build_engine_from_onnx<H: LogHandler>(logger: &Logger<H>, onnx_bytes: &[u8]) -> (r: Result<
    Vec<u8>,
    Error,
>)
    ensures
        codec::parse_model_blob(onnx_bytes@) is None ==> (r matches Err(e) && (e
            matches Error::Runtime(m) && m@ == "Model bytes are malformed"@)),
        (codec::parse_model_blob(onnx_bytes@) matches Some(slots) ==> {
            &&& slots.len() == 0 ==> (r matches Err(e) && (e matches Error::Runtime(m) && m@
                == "Network definition is empty"@))
            &&& slots.len() > 0 ==> (r matches Ok(data) && data@ == codec::engine_blob(slots))
        }),
{
    let builder = match Builder::new(logger) {
        Ok(b) => b,
        Err(e) => { return Err(e); },
    };
    let mut network = match builder.create_network(network_flags::EXPLICIT_BATCH) {
        Ok(n) => n,
        Err(e) => { return Err(e); },
    };
    let parser = match OnnxParser::new(&network, logger) {
        Ok(p) => p,
        Err(e) => { return Err(e); },
    };
    match parser.parse(&mut network, onnx_bytes) {
        Ok(()) => {},
        Err(e) => { return Err(e); },
    }
    let mut config = match builder.create_config() {
        Ok(c) => c,
        Err(e) => { return Err(e); },
    };
    match config.set_memory_pool_limit(MemoryPoolType::Workspace, 1usize << 30) {
        Ok(()) => {},
        Err(e) => { return Err(e); },
    }
    builder.build_serialized_network(&network, &config)
}

/// The first input carrying the given name, if any.
fn find_input(inputs: &[TensorInput], name: &String) -> (r: Option<usize>)
    ensures
        (r matches Some(j) ==> 0 <= j < inputs@.len() && inputs@[j as int].name@ == name@),
        r is None ==> forall|j: int| 0 <= j < inputs@.len() ==> inputs@[j].name@ != name@,
{
    let n = inputs.len();
    let mut j: usize = 0;
    while j < n
        invariant
            j <= n,
            n == inputs@.len(),
            forall|k: int| 0 <= k < j ==> inputs@[k].name@ != name@,
        decreases n - j,
    {
        if inputs[j].name == *name {
            return Some(j);
        }
        j = j + 1;
    }
    None
}

/// The placeholder shape as a vector.
fn placeholder_shape_vec() -> (v: Vec<usize>)
    ensures
        v@ == placeholder_shape(),
{
    let mut v: Vec<usize> = Vec::new();
    v.push(1);
    v.push(1000);
    proof {
        assert(v@ =~= placeholder_shape());
    }
    v
}

/// Executes a serialized engine against the given inputs: deserializes
/// it, binds one device buffer per slot (inputs carry the caller's data,
/// every other slot a zeroed placeholder allocation), launches on the
/// default stream, synchronizes and reads the non-input slots back.
pub fn execute_engine<H: LogHandler>(
    logger: &Logger<H>,
    engine_data: &[u8],
    inputs: &[TensorInput],
) -> (r: Result<Vec<TensorOutput>, Error>)
    requires
        forall|i: int| 0 <= i < inputs@.len() ==> (#[trigger] inputs@[i].data)@.len() * 4
            <= usize::MAX,
    ensures
        codec::parse_engine_blob(engine_data@) is None ==> (r matches Err(e) && (e
            matches Error::Runtime(m) && m@ == "Engine data is corrupt"@)),
        (codec::parse_engine_blob(engine_data@) matches Some(slots) ==> {
            &&& all_names_valid(slots) ==> (r matches Ok(outs) && outputs_match(
                slots,
                input_names(inputs@),
                outs@,
            ))
            &&& !all_names_valid(slots) ==> (r matches Err(e) && (e matches Error::Utf8(m) && m@
                == "Tensor name is not valid UTF-8"@))
        }),
{
    let runtime = match Runtime::new(logger) {
        Ok(rt) => rt,
        Err(e) => { return Err(e); },
    };
    let engine = match runtime.deserialize_cuda_engine(engine_data) {
        Ok(en) => en,
        Err(e) => { return Err(e); },
    };
    let ghost slots = engine@;
    proof {
        codec::lemma_parse_table_wf(engine_data@.skip(4));
    }
    let mut context = match engine.create_execution_context() {
        Ok(c) => c,
        Err(e) => { return Err(e); },
    };
    let num_tensors = match engine.get_nb_io_tensors() {
        Ok(n) => n,
        Err(e) => { return Err(e); },
    };
    let n = num_tensors as usize;
    let ghost names = input_names(inputs@);
    let mut device_buffers: Vec<(String, DeviceBuffer)> = Vec::new();
    let mut output_buffers: Vec<(String, DeviceBuffer)> = Vec::new();
    let mut i: usize = 0;
    proof {
        reveal(Seq::filter);
        assert(slots.take(0).filter(|s: SlotView| !is_named_in(names, s.name))
            =~= Seq::<SlotView>::empty());
    }
    while i < n
        invariant
            i <= n,
            n == slots.len(),
            slots == engine@,
            engine.wf(),
            codec::parse_engine_blob(engine_data@) == Some(slots),
            names == input_names(inputs@),
            forall|k: int| 0 <= k < inputs@.len() ==> (#[trigger] inputs@[k].data)@.len() * 4
                <= usize::MAX,
            context.wf(),
            context.spec_engine() == slots,
            forall|k: int| 0 <= k < i ==> #[trigger] context.spec_bindings()[k] is Some,
            forall|k: int| 0 <= k < i ==> valid_utf8(#[trigger] slots[k].name),
            output_buffers@.len() == slots.take(i as int).filter(
                |s: SlotView| !is_named_in(names, s.name),
            ).len(),
            forall|k: int|
                0 <= k < output_buffers@.len() ==> (#[trigger] output_buffers@[k].0)@
                    == decode_utf8(
                    slots.take(i as int).filter(|s: SlotView| !is_named_in(names, s.name))[k].name,
                ) && output_buffers@[k].1@ == Seq::new((4 * OUTPUT_ELEMS) as nat, |j: int| 0u8),
        decreases n - i,
    {
        let ghost pred = |s: SlotView| !is_named_in(names, s.name);
        let ghost filtered_before = slots.take(i as int).filter(pred);
        let name = match engine.get_tensor_name(i as i32) {
            Ok(s) => s,
            Err(e) => { return Err(e); },
        };
        proof {
            reveal(Seq::filter);
            assert(valid_utf8(slots[i as int].name));
            decode_utf8_encode_utf8(slots[i as int].name);
            assert(encode_utf8(name@) == slots[i as int].name);
            assert(slots.take(i + 1).drop_last() =~= slots.take(i as int));
            assert(slots.take(i + 1).last() == slots[i as int]);
            assert(codec::wf_slot(slots[i as int]));
            assert(crate::runtime::slot_named(slots, encode_utf8(name@)));
        }
        let role = find_input(inputs, &name);
        let buffer: DeviceBuffer;
        match role {
            Some(j) => {
                proof {
                    assert(names[j as int] == decode_utf8(slots[i as int].name));
                    assert(is_named_in(names, slots[i as int].name));
                    assert(slots.take(i + 1).filter(pred) == filtered_before);
                }
                let size_bytes = inputs[j].data.len() * 4;
                buffer = match DeviceBuffer::new(size_bytes) {
                    Ok(b) => b,
                    Err(e) => { return Err(e); },
                };
                let mut buffer = buffer;
                let input_bytes = codec::write_le32_values(&inputs[j].data);
                match buffer.copy_from_host(input_bytes.as_slice()) {
                    Ok(()) => {},
                    Err(e) => { return Err(e); },
                }
                match context.set_tensor_address(name.as_str(), i) {
                    Ok(()) => {},
                    Err(e) => { return Err(e); },
                }
                device_buffers.push((name, buffer));
            },
            None => {
                proof {
                    assert(!is_named_in(names, slots[i as int].name)) by {
                        assert forall|j: int| 0 <= j < names.len() implies names[j] != decode_utf8(
                            slots[i as int].name,
                        ) by {
                            assert(inputs@[j].name@ != name@);
                        }
                    }
                    assert(slots.take(i + 1).filter(pred) == filtered_before.push(
                        slots[i as int],
                    ));
                }
                buffer = match DeviceBuffer::new(4 * OUTPUT_ELEMS) {
                    Ok(b) => b,
                    Err(e) => { return Err(e); },
                };
                match context.set_tensor_address(name.as_str(), i) {
                    Ok(()) => {},
                    Err(e) => { return Err(e); },
                }
                output_buffers.push((name, buffer));
            },
        }
        i = i + 1;
    }
    proof {
        assert(slots.take(n as int) =~= slots);
    }
    match context.enqueue_v3(cuda::get_default_stream()) {
        Ok(()) => {},
        Err(e) => { return Err(e); },
    }
    match cuda::synchronize() {
        Ok(()) => {},
        Err(e) => { return Err(e); },
    }
    let ghost filtered = slots.filter(|s: SlotView| !is_named_in(names, s.name));
    let mut outputs: Vec<TensorOutput> = Vec::new();
    let m = output_buffers.len();
    let mut k: usize = 0;
    while k < m
        invariant
            k <= m,
            m == output_buffers@.len(),
            m == filtered.len(),
            codec::parse_engine_blob(engine_data@) == Some(slots),
            all_names_valid(slots),
            names == input_names(inputs@),
            filtered == output_slots(slots, names),
            forall|t: int|
                0 <= t < m ==> (#[trigger] output_buffers@[t].0)@ == decode_utf8(filtered[t].name)
                    && output_buffers@[t].1@ == Seq::new((4 * OUTPUT_ELEMS) as nat, |j: int| 0u8),
            outputs@.len() == k,
            forall|t: int|
                0 <= t < k ==> (#[trigger] outputs@[t].name)@ == decode_utf8(filtered[t].name)
                    && outputs@[t].shape@ == placeholder_shape() && outputs@[t].data@ == Seq::new(
                    OUTPUT_ELEMS as nat,
                    |j: int| 0u32,
                ),
        decreases m - k,
    {
        let entry = &output_buffers[k];
        proof {
            assert((output_buffers@[k as int].0)@ == decode_utf8(filtered[k as int].name));
            assert(entry.1@ == Seq::new((4 * OUTPUT_ELEMS) as nat, |j: int| 0u8));
        }
        let mut host_data: Vec<u8> = Vec::new();
        let mut z: usize = 0;
        while z < 4 * OUTPUT_ELEMS
            invariant
                z <= 4 * OUTPUT_ELEMS,
                host_data@.len() == z,
                forall|j: int| 0 <= j < z ==> host_data@[j] == 0u8,
            decreases 4 * OUTPUT_ELEMS - z,
        {
            host_data.push(0u8);
            z = z + 1;
        }
        match entry.1.copy_to_host(&mut host_data) {
            Ok(()) => {},
            Err(e) => { return Err(e); },
        }
        proof {
            assert(host_data@ =~= Seq::new((4 * OUTPUT_ELEMS) as nat, |j: int| 0u8));
        }
        let data = codec::read_le32_values(&host_data, OUTPUT_ELEMS);
        proof {
            assert(0u32 | (0u32 << 8) | (0u32 << 16) | (0u32 << 24) == 0u32) by (bit_vector);
            assert forall|j: int| 0 <= j < OUTPUT_ELEMS implies data@[j] == 0u32 by {
                let sub = host_data@.subrange(4 * j, 4 * j + 4);
                assert(sub[0] == 0u8 && sub[1] == 0u8 && sub[2] == 0u8 && sub[3] == 0u8);
            }
            assert(data@ =~= Seq::new(OUTPUT_ELEMS as nat, |j: int| 0u32));
        }
        let name = clone_string(&entry.0);
        let out = TensorOutput { name, shape: placeholder_shape_vec(), data };
        outputs.push(out);
        k = k + 1;
    }
    proof {
        assert(outputs_match(slots, names, outputs@));
    }
    Ok(outputs)
}

/// An independent copy of a string, with the same characters.
fn clone_string(s: &String) -> (r: String)
    ensures
        r@ == s@,
{
    s.clone()
}

/// Executes a model against the given inputs: ingest, build with a
/// one-gibibyte workspace limit, deserialize, bind, launch, synchronize
/// and read back the non-input tensors. The first failure of any stage
/// surfaces as that stage's typed error, with no outputs.
pub fn run_onnx_with_tensorrt(onnx_model_bytes: &[u8], inputs: &[TensorInput]) -> (r: Result<
    Vec<TensorOutput>,
    Error,
>)
    requires
        forall|i: int| 0 <= i < inputs@.len() ==> (#[trigger] inputs@[i].data)@.len() * 4
            <= usize::MAX,
    ensures
        codec::parse_model_blob(onnx_model_bytes@) is None ==> (r matches Err(e) && (e
            matches Error::Runtime(m) && m@ == "Model bytes are malformed"@)),
        (codec::parse_model_blob(onnx_model_bytes@) matches Some(slots) ==> {
            &&& slots.len() == 0 ==> (r matches Err(e) && (e matches Error::Runtime(m) && m@
                == "Network definition is empty"@))
            &&& slots.len() > 0 && all_names_valid(slots) ==> (r matches Ok(outs)
                && outputs_match(slots, input_names(inputs@), outs@))
            &&& slots.len() > 0 && !all_names_valid(slots) ==> (r matches Err(e) && (e
                matches Error::Utf8(m) && m@ == "Tensor name is not valid UTF-8"@))
        }),
{
    let logger = match Logger::stderr() {
        Ok(l) => l,
        Err(e) => { return Err(e); },
    };
    let engine_data = match build_engine_from_onnx(&logger, onnx_model_bytes) {
        Ok(d) => d,
        Err(e) => { return Err(e); },
    };
    proof {
        match codec::parse_model_blob(onnx_model_bytes@) {
            Some(slots) => {
                codec::lemma_parse_table_wf(onnx_model_bytes@.skip(4));
                codec::lemma_engine_blob_round_trip(slots);
            },
            None => {},
        }
    }
    execute_engine(&logger, engine_data.as_slice(), inputs)
}

/// The product of a shape's dimension sizes: the tensor's element count.
pub open spec fn shape_product(s: Seq<usize>) -> int
    decreases s.len(),
{
    if s.len() == 0 {
        1
    } else {
        shape_product(s.drop_last()) * s.last()
    }
}

/// With every dimension positive, the product of any shape prefix is
/// positive and never exceeds the whole shape's product.
pub proof fn lemma_shape_product_bounds(s: Seq<usize>, i: int)
    requires
        forall|j: int| 0 <= j < s.len() ==> s[j] >= 1,
        0 <= i <= s.len(),
    ensures
        1 <= shape_product(s.take(i)) <= shape_product(s),
    decreases s.len() - i,
{
    if i == s.len() {
        assert(s.take(i) =~= s);
        lemma_shape_product_pos(s);
    } else {
        lemma_shape_product_bounds(s, i + 1);
        assert(s.take(i + 1).drop_last() =~= s.take(i));
        assert(s.take(i + 1).last() == s[i]);
        lemma_shape_product_pos(s.take(i));
        let a = shape_product(s.take(i));
        let b = s[i] as int;
        assert(shape_product(s.take(i + 1)) == a * b);
        assert(a >= 1 && b >= 1 ==> a <= a * b) by (nonlinear_arith);
    }
}

/// With every dimension positive, a shape's product is positive.
pub proof fn lemma_shape_product_pos(s: Seq<usize>)
    requires
        forall|j: int| 0 <= j < s.len() ==> s[j] >= 1,
    ensures
        shape_product(s) >= 1,
    decreases s.len(),
{
    if s.len() != 0 {
        lemma_shape_product_pos(s.drop_last());
        let a = shape_product(s.drop_last());
        let b = s.last() as int;
        assert(a >= 1 && b >= 1 ==> a * b >= 1) by (nonlinear_arith);
    }
}

/// The element count of a shape with positive dimensions.
fn shape_size(shape: &Vec<usize>) -> (r: usize)
    requires
        forall|j: int| 0 <= j < shape@.len() ==> shape@[j] >= 1,
        shape_product(shape@) <= usize::MAX,
    ensures
        r == shape_product(shape@),
{
    let n = shape.len();
    let mut acc: usize = 1;
    let mut i: usize = 0;
    proof {
        assert(shape@.take(0) =~= Seq::<usize>::empty());
    }
    while i < n
        invariant
            i <= n,
            n == shape@.len(),
            forall|j: int| 0 <= j < shape@.len() ==> shape@[j] >= 1,
            shape_product(shape@) <= usize::MAX,
            acc == shape_product(shape@.take(i as int)),
        decreases n - i,
    {
        proof {
            lemma_shape_product_bounds(shape@, i + 1);
            assert(shape@.take(i + 1).drop_last() =~= shape@.take(i as int));
            assert(shape@.take(i + 1).last() == shape@[i as int]);
        }
        acc = acc * shape[i];
        i = i + 1;
    }
    proof {
        assert(shape@.take(n as int) =~= shape@);
    }
    acc
}

/// A vector of `n` zero elements.
fn zeros_u32(n: usize) -> (v: Vec<u32>)
    ensures
        v@ == Seq::new(n as nat, |i: int| 0u32),
{
    let mut v: Vec<u32> = Vec::new();
    let mut i: usize = 0;
    while i < n
        invariant
            i <= n,
            v@.len() == i,
            forall|k: int| 0 <= k < i ==> v@[k] == 0u32,
        decreases n - i,
    {
        v.push(0);
        i = i + 1;
    }
    proof {
        assert(v@ =~= Seq::new(n as nat, |i: int| 0u32));
    }
    v
}

/// An independent copy of a shape vector.
fn clone_shape(shape: &Vec<usize>) -> (r: Vec<usize>)
    ensures
        r@ == shape@,
{
    let n = shape.len();
    let mut r: Vec<usize> = Vec::new();
    let mut i: usize = 0;
    while i < n
        invariant
            i <= n,
            n == shape@.len(),
            r@.len() == i,
            forall|k: int| 0 <= k < i ==> r@[k] == shape@[k],
        decreases n - i,
    {
        r.push(shape[i]);
        i = i + 1;
    }
    proof {
        assert(r@ =~= shape@);
    }
    r
}

/// The names of a set of input descriptors.
pub open spec fn descriptor_names(descs: Seq<(String, Vec<usize>)>) -> Seq<Seq<char>> {
    Seq::new(descs.len(), |i: int| descs[i].0@)
}

/// Executes a model with all-zero input data, one zero-filled tensor per
/// descriptor, for validation and smoke-testing without real data. The
/// staging and the failures are those of [`run_onnx_with_tensorrt`]: a
/// malformed model fails during ingest, before any build or execution.
pub fn run_onnx_zeroed(onnx_model_bytes: &[u8], input_descriptors: &[(String, Vec<usize>)]) -> (r:
    Result<Vec<TensorOutput>, Error>)
    requires
        forall|i: int, j: int|
            0 <= i < input_descriptors@.len() && 0 <= j < input_descriptors@[i].1@.len()
                ==> #[trigger] input_descriptors@[i].1@[j] >= 1,
        forall|i: int| 0 <= i < input_descriptors@.len() ==> shape_product(
            (#[trigger] input_descriptors@[i].1)@,
        ) * 4 <= usize::MAX,
    ensures
        codec::parse_model_blob(onnx_model_bytes@) is None ==> (r matches Err(e) && (e
            matches Error::Runtime(m) && m@ == "Model bytes are malformed"@)),
        (codec::parse_model_blob(onnx_model_bytes@) matches Some(slots) ==> {
            &&& slots.len() == 0 ==> (r matches Err(e) && (e matches Error::Runtime(m) && m@
                == "Network definition is empty"@))
            &&& slots.len() > 0 && all_names_valid(slots) ==> (r matches Ok(outs)
                && outputs_match(slots, descriptor_names(input_descriptors@), outs@))
            &&& slots.len() > 0 && !all_names_valid(slots) ==> (r matches Err(e) && (e
                matches Error::Utf8(m) && m@ == "Tensor name is not valid UTF-8"@))
        }),
{
    let n = input_descriptors.len();
    let mut inputs: Vec<TensorInput> = Vec::new();
    let mut i: usize = 0;
    while i < n
        invariant
            i <= n,
            n == input_descriptors@.len(),
            forall|t: int, j: int|
                0 <= t < input_descriptors@.len() && 0 <= j < input_descriptors@[t].1@.len()
                    ==> #[trigger] input_descriptors@[t].1@[j] >= 1,
            forall|t: int| 0 <= t < input_descriptors@.len() ==> shape_product(
                (#[trigger] input_descriptors@[t].1)@,
            ) * 4 <= usize::MAX,
            inputs@.len() == i,
            forall|t: int|
                0 <= t < i ==> (#[trigger] inputs@[t].name)@ == (input_descriptors@[t].0)@,
            forall|t: int|
                0 <= t < i ==> (#[trigger] inputs@[t].data)@.len() * 4 <= usize::MAX,
        decreases n - i,
    {
        let desc = &input_descriptors[i];
        proof {
            assert((input_descriptors@[i as int].1)@ == desc.1@);
            lemma_shape_product_pos(desc.1@);
        }
        let size = shape_size(&desc.1);
        let input = TensorInput {
            name: clone_string(&desc.0),
            shape: clone_shape(&desc.1),
            data: zeros_u32(size),
        };
        inputs.push(input);
        i = i + 1;
    }
    proof {
        assert(input_names(inputs@) =~= descriptor_names(input_descriptors@));
    }
    run_onnx_with_tensorrt(onnx_model_bytes, inputs.as_slice())
}

} // verus!
