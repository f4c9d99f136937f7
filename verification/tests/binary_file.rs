use latte::binary_file::{BinaryFile, VecKind};
use latte::byte_order::ByteOrder;
use latte::file_error::{BinaryFileError, ErrorKind};

const LE: ByteOrder = ByteOrder::Le;
const BE: ByteOrder = ByteOrder::Be;

/// A failed request: refused by the checks, or run past the end of the bytes.
#[derive(Debug)]
enum Failure {
    Refused(BinaryFileError),
    Eof,
}

impl Failure {
    fn kind(&self) -> ErrorKind {
        match self {
            Failure::Refused(e) => e.kind(),
            Failure::Eof => ErrorKind::UnexpectedEof,
        }
    }

    fn message(&self) -> String {
        match self {
            Failure::Refused(e) => e.message(),
            Failure::Eof => "failed to fill whole buffer".to_string(),
        }
    }
}

/// The file contents in memory with a read position, driven through the
/// checks and decoders of the library the way a reader over a real file is.
struct Bytes {
    data: Vec<u8>,
    pos: u64,
    file: BinaryFile,
}

impl Bytes {
    fn open(data: &[u8]) -> Bytes {
        Bytes { data: data.to_vec(), pos: 0, file: BinaryFile::new(data.len() as u64) }
    }

    fn len(&self) -> i64 {
        self.file.len()
    }

    fn take(&mut self, n: usize) -> Result<Vec<u8>, Failure> {
        let start = self.pos as usize;
        if start + n > self.data.len() {
            self.pos = self.data.len() as u64;
            return Err(Failure::Eof);
        }
        self.pos += n as u64;
        Ok(self.data[start..start + n].to_vec())
    }

    fn take4(&mut self) -> Result<[u8; 4], Failure> {
        Ok(self.take(4)?.try_into().unwrap())
    }

    fn take8(&mut self) -> Result<[u8; 8], Failure> {
        Ok(self.take(8)?.try_into().unwrap())
    }

    fn seek(&mut self, offset: i64) -> Result<(), Failure> {
        self.pos = self.file.seek(offset).map_err(Failure::Refused)?;
        Ok(())
    }

    fn seek_relative(&mut self, delta: i64) -> Result<(), Failure> {
        self.pos = self.file.seek_relative(self.pos, delta).map_err(Failure::Refused)?;
        Ok(())
    }

    fn read_u32(&mut self, order: ByteOrder) -> Result<i64, Failure> {
        Ok(BinaryFile::read_u32(order, self.take4()?))
    }

    fn read_i32(&mut self, order: ByteOrder) -> Result<i64, Failure> {
        Ok(BinaryFile::read_i32(order, self.take4()?))
    }

    fn read_i64(&mut self, order: ByteOrder) -> Result<i64, Failure> {
        Ok(BinaryFile::read_i64(order, self.take8()?))
    }

    fn read_f32(&mut self, order: ByteOrder) -> Result<f64, Failure> {
        Ok(f32::from_bits(order.decode_u32(self.take4()?)) as f64)
    }

    fn read_f64(&mut self, order: ByteOrder) -> Result<f64, Failure> {
        Ok(f64::from_bits(order.decode_u64(self.take8()?)))
    }

    fn bulk(&mut self, count: i64, what: VecKind) -> Result<Vec<u8>, Failure> {
        let n = self.file.read_bulk(self.pos, count, what).map_err(Failure::Refused)?;
        self.take(n)
    }

    fn read_f32_vec(&mut self, order: ByteOrder, count: i64) -> Result<Vec<f64>, Failure> {
        let buf = self.bulk(count, VecKind::F32)?;
        Ok(order.decode_u32_chunks(&buf).into_iter().map(|b| f32::from_bits(b) as f64).collect())
    }

    fn read_f64_vec(&mut self, order: ByteOrder, count: i64) -> Result<Vec<f64>, Failure> {
        let buf = self.bulk(count, VecKind::F64)?;
        Ok(order.decode_u64_chunks(&buf).into_iter().map(f64::from_bits).collect())
    }

    fn read_u32_vec(&mut self, order: ByteOrder, count: i64) -> Result<Vec<i64>, Failure> {
        let buf = self.bulk(count, VecKind::U32)?;
        Ok(BinaryFile::read_u32_vec(order, &buf))
    }

    fn read_i32_vec(&mut self, order: ByteOrder, count: i64) -> Result<Vec<i64>, Failure> {
        let buf = self.bulk(count, VecKind::I32)?;
        Ok(BinaryFile::read_i32_vec(order, &buf))
    }

    fn read_i64_vec(&mut self, order: ByteOrder, count: i64) -> Result<Vec<i64>, Failure> {
        let buf = self.bulk(count, VecKind::I64)?;
        Ok(BinaryFile::read_i64_vec(order, &buf))
    }
}

#[test]
fn parses_byte_order() {
    assert!(matches!(ByteOrder::parse("le").unwrap(), ByteOrder::Le));
    assert!(matches!(ByteOrder::parse("be").unwrap(), ByteOrder::Be));
    assert!(matches!(ByteOrder::parse("LE").unwrap(), ByteOrder::Le));
    assert!(matches!(ByteOrder::parse("Be").unwrap(), ByteOrder::Be));
    let err = ByteOrder::parse("mixed").unwrap_err();
    assert_eq!(err.kind(), ErrorKind::InvalidInput);
    assert!(err.message().contains("fs::LE"));
}

#[test]
fn reads_scalars_in_order() {
    let mut bytes = Vec::new();
    bytes.extend_from_slice(&3_000_000_000u32.to_le_bytes());
    bytes.extend_from_slice(&(-7i32).to_le_bytes());
    bytes.extend_from_slice(&(-1234567890123i64).to_le_bytes());
    bytes.extend_from_slice(&1.5f32.to_le_bytes());
    bytes.extend_from_slice(&(-2.25f64).to_le_bytes());
    let mut f = Bytes::open(&bytes);

    // 3_000_000_000 doesn't fit in i32 - proves the unsigned read widens.
    assert_eq!(f.read_u32(LE).unwrap(), 3_000_000_000);
    assert_eq!(f.read_i32(LE).unwrap(), -7);
    assert_eq!(f.read_i64(LE).unwrap(), -1234567890123);
    assert_eq!(f.read_f32(LE).unwrap(), 1.5);
    assert_eq!(f.read_f64(LE).unwrap(), -2.25);
}

#[test]
fn reads_scalars_big_endian() {
    let mut bytes = Vec::new();
    bytes.extend_from_slice(&3_000_000_000u32.to_be_bytes());
    bytes.extend_from_slice(&(-7i32).to_be_bytes());
    bytes.extend_from_slice(&(-1234567890123i64).to_be_bytes());
    bytes.extend_from_slice(&1.5f32.to_be_bytes());
    bytes.extend_from_slice(&(-2.25f64).to_be_bytes());
    let mut f = Bytes::open(&bytes);

    assert_eq!(f.read_u32(BE).unwrap(), 3_000_000_000);
    assert_eq!(f.read_i32(BE).unwrap(), -7);
    assert_eq!(f.read_i64(BE).unwrap(), -1234567890123);
    assert_eq!(f.read_f32(BE).unwrap(), 1.5);
    assert_eq!(f.read_f64(BE).unwrap(), -2.25);
}

#[test]
fn bulk_read_past_eof_errors_before_allocating() {
    let mut f = Bytes::open(&1.0f32.to_le_bytes());
    // A corrupt header can request far more data than the file holds; this
    // must fail as a clean EOF error, not attempt a 4 TB allocation.
    let err = f.read_f32_vec(LE, 1_000_000_000_000).unwrap_err();
    assert_eq!(err.kind(), ErrorKind::UnexpectedEof);
    // The file is still usable at its previous position.
    assert_eq!(f.read_f32(LE).unwrap(), 1.0);
}

#[test]
fn reads_bulk_vectors() {
    let mut bytes = Vec::new();
    for v in [0.5f32, -1.0, 2.5] {
        bytes.extend_from_slice(&v.to_le_bytes());
    }
    for v in [10i32, -20, 30] {
        bytes.extend_from_slice(&v.to_le_bytes());
    }
    for v in [0.25f64, -3.5] {
        bytes.extend_from_slice(&v.to_le_bytes());
    }
    for v in [-40i64, 50] {
        bytes.extend_from_slice(&v.to_le_bytes());
    }
    let mut f = Bytes::open(&bytes);

    assert_eq!(f.read_f32_vec(LE, 3).unwrap(), vec![0.5, -1.0, 2.5]);
    assert_eq!(f.read_i32_vec(LE, 3).unwrap(), vec![10, -20, 30]);
    f.seek_relative(-3 * 4).unwrap();
    // The same i32 bytes reread as u32: -20 becomes 2^32 - 20.
    assert_eq!(f.read_u32_vec(LE, 3).unwrap(), vec![10, 4294967276, 30]);
    assert_eq!(f.read_f64_vec(LE, 2).unwrap(), vec![0.25, -3.5]);
    assert_eq!(f.read_i64_vec(LE, 2).unwrap(), vec![-40, 50]);
    assert_eq!(f.read_f32_vec(LE, 0).unwrap(), Vec::<f64>::new());
}

#[test]
fn reads_bulk_vectors_big_endian() {
    let mut bytes = Vec::new();
    for v in [0.5f32, -1.0] {
        bytes.extend_from_slice(&v.to_be_bytes());
    }
    for v in [-40i64, 50] {
        bytes.extend_from_slice(&v.to_be_bytes());
    }
    let mut f = Bytes::open(&bytes);

    assert_eq!(f.read_f32_vec(BE, 2).unwrap(), vec![0.5, -1.0]);
    assert_eq!(f.read_i64_vec(BE, 2).unwrap(), vec![-40, 50]);
}

#[test]
fn seek_and_seek_relative_position_reads() {
    // A fixed-record layout: 8-byte header (count=3, record_len=2), then
    // three records of two f32 each - seek straight to record 1.
    let mut bytes = Vec::new();
    bytes.extend_from_slice(&3u32.to_le_bytes());
    bytes.extend_from_slice(&2u32.to_le_bytes());
    for v in [0.0f32, 0.1, 1.0, 1.1, 2.0, 2.1] {
        bytes.extend_from_slice(&v.to_le_bytes());
    }
    let mut f = Bytes::open(&bytes);
    assert_eq!(f.len(), bytes.len() as i64);

    f.seek(8 + 2 * 4).unwrap();
    assert_eq!(f.read_f32(LE).unwrap(), 1.0);
    f.seek_relative(4).unwrap(); // skip the second component of record 1
    assert_eq!(f.read_f32(LE).unwrap(), 2.0);
    f.seek_relative(-2 * 4).unwrap(); // back to that skipped component
    assert_eq!(f.read_f32(LE).unwrap() as f32, 1.1);

    let err = f.seek(-1).unwrap_err();
    assert_eq!(err.kind(), ErrorKind::InvalidInput);
}

#[test]
fn seeks_outside_the_file_are_rejected() {
    let mut f = Bytes::open(&[0u8; 8]);

    // The end of the file is a valid position; one past it is not.
    f.seek(8).unwrap();
    let err = f.seek(9).unwrap_err();
    assert_eq!(err.kind(), ErrorKind::InvalidInput);
    assert!(err.message().contains("file length 8"), "got: {}", err.message());

    f.seek(4).unwrap();
    let err = f.seek_relative(-5).unwrap_err();
    assert_eq!(err.kind(), ErrorKind::InvalidInput);
    assert!(err.message().contains("-1"), "got: {}", err.message());
    let err = f.seek_relative(5).unwrap_err();
    assert_eq!(err.kind(), ErrorKind::InvalidInput);
    // The position is unchanged after a rejected seek.
    assert_eq!(f.read_i32(LE).unwrap(), 0);
}

#[test]
fn byte_order_changes_interpretation() {
    // One byte pattern, two readings: the orders must actually differ.
    let mut f = Bytes::open(&[0x44, 0x33, 0x22, 0x11]);
    assert_eq!(f.read_u32(LE).unwrap(), 0x11223344);
    f.seek(0).unwrap();
    assert_eq!(f.read_u32(BE).unwrap(), 0x44332211);
}

#[test]
fn mixed_orders_within_one_file() {
    let mut bytes = Vec::new();
    bytes.extend_from_slice(&7u32.to_le_bytes());
    bytes.extend_from_slice(&7u32.to_be_bytes());
    bytes.extend_from_slice(&1.5f32.to_be_bytes());
    bytes.extend_from_slice(&(-9i64).to_le_bytes());
    let mut f = Bytes::open(&bytes);

    assert_eq!(f.read_u32(LE).unwrap(), 7);
    assert_eq!(f.read_u32(BE).unwrap(), 7);
    assert_eq!(f.read_f32(BE).unwrap(), 1.5);
    assert_eq!(f.read_i64(LE).unwrap(), -9);
}

#[test]
fn eof_is_an_error() {
    let mut f = Bytes::open(&1u32.to_le_bytes());
    assert_eq!(f.read_u32(LE).unwrap(), 1);
    let err = f.read_u32(LE).unwrap_err();
    assert_eq!(err.kind(), ErrorKind::UnexpectedEof);
    let err = f.read_f32_vec(LE, 5).unwrap_err();
    assert_eq!(err.kind(), ErrorKind::UnexpectedEof);
}

#[test]
fn negative_count_is_rejected() {
    let mut f = Bytes::open(&[]);
    let err = f.read_f32_vec(LE, -1).unwrap_err();
    assert_eq!(err.kind(), ErrorKind::InvalidInput);
    assert!(err.message().contains("read_f32_vec"));
}
