use xcp::copier::{
    get_buffer, read_check, sequential_read_step, sequential_write_step, write_check, CopyBytes,
    CopyRange, ReadEvent, ReadStep, WriteEvent, BLKSIZE,
};
use xcp::errors::CopyError;
use xcp::memcopy::{copy_bytes_mem, copy_range_mem};

fn pattern(size: usize, byte: u8) -> Vec<u8> {
    let mut v: Vec<u8> = Vec::new();
    while v.len() < size {
        v.push(byte);
    }
    v
}

fn zeros(size: usize) -> Vec<u8> {
    pattern(size, 0)
}

#[test]
fn get_buffer_has_block_size() {
    let b = get_buffer();
    assert_eq!(b.len(), BLKSIZE);
    assert_eq!(BLKSIZE, 4096);
}

#[test]
fn sequential_read_decisions() {
    assert_eq!(
        sequential_read_step(ReadEvent::Data(0)),
        ReadStep::Fail(CopyError::SourceExhausted)
    );
    assert_eq!(sequential_read_step(ReadEvent::Data(17)), ReadStep::Copy(17));
    assert_eq!(sequential_read_step(ReadEvent::Interrupted), ReadStep::Retry);
    assert_eq!(
        sequential_read_step(ReadEvent::Failed(5)),
        ReadStep::Fail(CopyError::Os(5))
    );
}

#[test]
fn read_check_decisions() {
    assert_eq!(read_check(0), Err(CopyError::SourceExhausted));
    assert_eq!(read_check(7), Ok(7));
}

#[test]
fn sequential_write_decisions() {
    assert_eq!(sequential_write_step(WriteEvent::Done), Ok(()));
    assert_eq!(
        sequential_write_step(WriteEvent::Failed(28)),
        Err(CopyError::WriteFailed(28))
    );
}

#[test]
fn write_check_decisions() {
    assert_eq!(write_check(5, 4), Err(CopyError::WriteIncomplete));
    assert_eq!(write_check(5, 5), Ok(5));
    assert_eq!(write_check(0, 0), Ok(0));
}

#[test]
fn copy_bytes_driver_counts() {
    let mut c = CopyBytes::new(5000);
    assert!(!c.done());
    assert_eq!(c.next_chunk(), 4096);
    let buf = get_buffer();
    c.advance(&buf, 4096);
    assert_eq!(c.written, 4096);
    assert_eq!(c.next_chunk(), 904);
    c.advance(&buf, 904);
    assert!(c.done());
    assert_eq!(c.written, 5000);
}

#[test]
fn copy_range_driver_positions() {
    let mut c = CopyRange::new(6000, 1024);
    assert_eq!(c.position(), 1024);
    assert_eq!(c.next_chunk(), 4096);
    let buf = get_buffer();
    c.advance(&buf, 100);
    assert_eq!(c.position(), 1124);
    assert_eq!(c.next_chunk(), 4096);
    assert!(!c.done());
}

#[test]
fn copy_bytes_mem_full_file_pattern() {
    let size: usize = 128 * 1024;
    let src = pattern(size, b'X');
    let mut dest = zeros(size);
    let written = copy_bytes_mem(&src, &mut dest, size);
    assert_eq!(written, Ok(size as u64));
    assert_eq!(dest.len(), src.len());
    assert_eq!(dest, src);
}

#[test]
fn copy_range_mem_reverse_quarters() {
    let size: usize = 128 * 1024;
    let src = pattern(size, b'X');
    let mut dest = zeros(size);
    let quarter = size / 4;
    let mut written: u64 = 0;
    let mut part: usize = 4;
    while part > 0 {
        part -= 1;
        let r = copy_range_mem(&src, &mut dest, quarter, quarter * part);
        assert_eq!(r, Ok(quarter as u64));
        written += quarter as u64;
    }
    assert_eq!(written, size as u64);
    assert_eq!(dest.len(), src.len());
    assert_eq!(dest, src);
}

#[test]
fn copy_range_mem_shuffled_quarters() {
    let size: usize = 4 * 4096 + 4 * 100;
    let mut src = zeros(0);
    let mut i: usize = 0;
    while i < size {
        src.push((i % 251) as u8);
        i += 1;
    }
    let quarter = size / 4;
    let order = [2usize, 0, 3, 1];
    let mut dest = zeros(size);
    for part in order {
        let r = copy_range_mem(&src, &mut dest, quarter, quarter * part);
        assert_eq!(r, Ok(quarter as u64));
    }
    assert_eq!(dest, src);
}

#[test]
fn copy_bytes_mem_prefix_only() {
    let src = pattern(5000, b'A');
    let mut dest = zeros(5000);
    let r = copy_bytes_mem(&src, &mut dest, 1000);
    assert_eq!(r, Ok(1000));
    assert_eq!(&dest[..1000], &src[..1000]);
    assert_eq!(&dest[1000..], &zeros(4000)[..]);
}

#[test]
fn copy_bytes_mem_exact_and_exhausted() {
    let src = pattern(100, b'B');
    let mut dest = zeros(100);
    assert_eq!(copy_bytes_mem(&src, &mut dest, 100), Ok(100));
    assert_eq!(dest, src);

    let mut dest2 = zeros(100);
    assert_eq!(
        copy_bytes_mem(&src, &mut dest2, 150),
        Err(CopyError::SourceExhausted)
    );
    assert_eq!(dest2, src);
    assert_eq!(dest2.len(), 100);
}

#[test]
fn copy_range_mem_exhausted_partial() {
    let src = pattern(100, b'C');
    let mut dest = zeros(100);
    assert_eq!(
        copy_range_mem(&src, &mut dest, 100, 50),
        Err(CopyError::SourceExhausted)
    );
    assert_eq!(&dest[..50], &zeros(50)[..]);
    assert_eq!(&dest[50..], &src[50..]);
}

#[test]
fn copy_range_mem_zero_length() {
    let src = pattern(64, b'D');
    let mut dest = zeros(64);
    assert_eq!(copy_range_mem(&src, &mut dest, 0, 10), Ok(0));
    assert_eq!(dest, zeros(64));
}

#[test]
fn copy_range_mem_offset_past_eof() {
    let src = pattern(64, b'E');
    let mut dest = zeros(64);
    assert_eq!(
        copy_range_mem(&src, &mut dest, 1, 64),
        Err(CopyError::SourceExhausted)
    );
    assert_eq!(dest, zeros(64));
}

#[test]
fn copy_bytes_mem_larger_destination() {
    let src = pattern(100, b'G');
    let mut dest = zeros(150);
    assert_eq!(copy_bytes_mem(&src, &mut dest, 100), Ok(100));
    assert_eq!(&dest[..100], &src[..]);
    assert_eq!(&dest[100..], &zeros(50)[..]);
}

#[test]
fn copy_range_mem_destination_sized_to_range() {
    let src = pattern(5000, b'F');

    let mut larger = zeros(9000);
    assert_eq!(copy_range_mem(&src, &mut larger, 3000, 1000), Ok(3000));
    assert_eq!(&larger[1000..4000], &src[1000..4000]);
    assert_eq!(&larger[..1000], &zeros(1000)[..]);
    assert_eq!(&larger[4000..], &zeros(5000)[..]);

    let mut shorter = zeros(1500);
    assert_eq!(copy_range_mem(&src, &mut shorter, 500, 1000), Ok(500));
    assert_eq!(&shorter[1000..1500], &src[1000..1500]);
    assert_eq!(&shorter[..1000], &zeros(1000)[..]);
}

#[test]
fn copy_range_mem_disjoint_halves_either_order() {
    let size: usize = 2 * 4096 + 2 * 33;
    let mut src = zeros(0);
    let mut i: usize = 0;
    while i < size {
        src.push((i % 97) as u8);
        i += 1;
    }
    let half = size / 2;

    let mut first_then_second = zeros(size);
    assert_eq!(
        copy_range_mem(&src, &mut first_then_second, half, 0),
        Ok(half as u64)
    );
    assert_eq!(
        copy_range_mem(&src, &mut first_then_second, half, half),
        Ok(half as u64)
    );

    let mut second_then_first = zeros(size);
    assert_eq!(
        copy_range_mem(&src, &mut second_then_first, half, half),
        Ok(half as u64)
    );
    assert_eq!(
        copy_range_mem(&src, &mut second_then_first, half, 0),
        Ok(half as u64)
    );

    assert_eq!(first_then_second, src);
    assert_eq!(second_then_first, src);
    assert_eq!(first_then_second, second_then_first);
}
