use trtx::cuda::get_default_stream;
use trtx::synchronize;
use trtx::DeviceBuffer;
use trtx::Error;

#[test]
fn test_device_buffer_allocation() {
    let buffer = DeviceBuffer::new(1024);
    assert!(buffer.is_ok());

    let buffer = buffer.unwrap();
    assert_eq!(buffer.size(), 1024);
}

#[test]
fn test_device_buffer_copy() {
    let mut buffer = DeviceBuffer::new(256).unwrap();

    let host_data = vec![42u8; 256];
    assert!(buffer.copy_from_host(&host_data).is_ok());

    let mut output = vec![0u8; 256];
    assert!(buffer.copy_to_host(&mut output).is_ok());

    assert_eq!(host_data, output);
}

#[test]
fn test_synchronize() {
    assert!(synchronize().is_ok());
}

#[test]
fn test_device_buffer_zero_size() {
    let buffer = DeviceBuffer::new(0).unwrap();
    assert_eq!(buffer.size(), 0);
}

#[test]
fn test_device_buffer_partial_round_trip() {
    let mut buffer = DeviceBuffer::new(8).unwrap();
    assert!(buffer.copy_from_host(&[1u8, 2, 3, 4, 5]).is_ok());

    let mut output = vec![0u8; 3];
    assert!(buffer.copy_to_host(&mut output).is_ok());
    assert_eq!(output, vec![1u8, 2, 3]);
}

#[test]
fn test_device_buffer_copy_from_host_overflow() {
    let mut buffer = DeviceBuffer::new(4).unwrap();
    buffer.copy_from_host(&[9u8; 4]).unwrap();

    // An oversized copy fails with InvalidArgument and leaves the buffer
    // contents unchanged.
    let result = buffer.copy_from_host(&[1u8; 5]);
    assert!(matches!(result, Err(Error::InvalidArgument(_))));

    let mut readback = vec![0u8; 4];
    buffer.copy_to_host(&mut readback).unwrap();
    assert_eq!(readback, vec![9u8; 4]);
}

#[test]
fn test_device_buffer_copy_to_host_overflow() {
    let buffer = DeviceBuffer::new(4).unwrap();
    let mut oversized = vec![7u8; 5];
    let result = buffer.copy_to_host(&mut oversized);
    assert!(matches!(result, Err(Error::InvalidArgument(_))));
    // The host buffer is left untouched on failure.
    assert_eq!(oversized, vec![7u8; 5]);
}

#[test]
fn test_device_buffer_fresh_allocation_is_zeroed() {
    let buffer = DeviceBuffer::new(16).unwrap();
    let mut readback = vec![5u8; 16];
    buffer.copy_to_host(&mut readback).unwrap();
    assert_eq!(readback, vec![0u8; 16]);
}

#[test]
fn test_default_stream_is_stable() {
    assert_eq!(get_default_stream(), get_default_stream());
}
