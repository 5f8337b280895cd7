use shatter::buffer::{
    initial_device_size, Buffer, BufferError, BufferLayout, ResizeStep, UploadPlan,
};
use shatter::id::IdMap;

fn buffer(layout: BufferLayout, store: &mut IdMap<Vec<u8>>) -> Buffer {
    let size = initial_device_size(layout) as usize;
    Buffer::new(layout, store, vec![0u8; size])
}

#[test]
fn initial_device_size_is_at_least_four() {
    let mut store: IdMap<Vec<u8>> = IdMap::new();
    assert_eq!(buffer(BufferLayout::fixed(16), &mut store).device_size(), 16);
    assert_eq!(buffer(BufferLayout::fixed(2), &mut store).device_size(), 4);
    assert_eq!(buffer(BufferLayout::fixed(0), &mut store).device_size(), 4);
    assert_eq!(buffer(BufferLayout::with_items(8, 8), &mut store).device_size(), 8);
    assert_eq!(buffer(BufferLayout::with_items(0, 8), &mut store).device_size(), 4);
}

#[test]
fn new_buffer_is_registered_and_clean() {
    let mut store: IdMap<Vec<u8>> = IdMap::new();
    let b = buffer(BufferLayout::fixed(16), &mut store);
    assert!(!b.needs_download());
    assert!(store.contains(&b.id()));
    assert_eq!(b.id().ref_count(&store), 1);
    assert_eq!(b.read(0, 16), Ok(vec![0u8; 16]));
}

#[test]
fn capacity_doubles_as_items_are_pushed() {
    let mut store: IdMap<Vec<u8>> = IdMap::new();
    let mut b = buffer(BufferLayout::with_items(4, 8), &mut store);
    assert_eq!(b.capacity(), 0);
    let mut caps = Vec::new();
    for n in 0..9u8 {
        assert_eq!(b.push(&[n; 8]), Ok(()));
        caps.push(b.capacity());
    }
    assert_eq!(caps, vec![1, 2, 4, 4, 8, 8, 8, 8, 16]);
    assert_eq!(b.len(), 9);
    assert_eq!(b.size(), 4 + 9 * 8);
}

#[test]
fn zero_sized_items_never_grow() {
    let mut store: IdMap<Vec<u8>> = IdMap::new();
    let mut b = buffer(BufferLayout::with_items(4, 0), &mut store);
    assert_eq!(b.capacity(), usize::MAX);
    assert_eq!(b.push(&[]), Ok(()));
    assert_eq!(b.push(&[]), Ok(()));
    assert_eq!(b.len(), 2);
    assert_eq!(b.capacity(), usize::MAX);
    assert_eq!(b.size(), 4);
}

#[test]
fn pushed_items_read_back_in_order() {
    let mut store: IdMap<Vec<u8>> = IdMap::new();
    let mut b = buffer(BufferLayout::with_items(2, 3), &mut store);
    assert_eq!(b.write(0, &[9, 9]), Ok(()));
    b.push(&[1, 2, 3]).unwrap();
    b.push(&[4, 5, 6]).unwrap();
    assert_eq!(b.read(0, 8), Ok(vec![9, 9, 1, 2, 3, 4, 5, 6]));
    assert_eq!(b.pop(), Ok(Some(vec![4, 5, 6])));
    assert_eq!(b.read(0, 5), Ok(vec![9, 9, 1, 2, 3]));
    assert_eq!(b.pop(), Ok(Some(vec![1, 2, 3])));
    assert_eq!(b.pop(), Ok(None));
    assert_eq!(b.len(), 0);
}

#[test]
fn reads_and_writes_outside_the_value_fail() {
    let mut store: IdMap<Vec<u8>> = IdMap::new();
    let mut b = buffer(BufferLayout::fixed(4), &mut store);
    assert_eq!(b.read(2, 3), Err(BufferError::OutOfRange));
    assert_eq!(b.write(4, &[1]), Err(BufferError::OutOfRange));
    assert_eq!(b.write(3, &[1]), Ok(()));
    assert_eq!(b.read(0, 4), Ok(vec![0, 0, 0, 1]));
}

#[test]
fn upload_is_skipped_while_a_download_is_pending() {
    let mut store: IdMap<Vec<u8>> = IdMap::new();
    let mut b = buffer(BufferLayout::fixed(16), &mut store);
    assert_eq!(b.upload(), UploadPlan::Write);
    b.mark_needs_download();
    assert_eq!(b.upload(), UploadPlan::Skip);
    assert!(b.needs_download());
    assert_eq!(b.read(0, 4), Err(BufferError::NeedsDownload));
    assert_eq!(b.write(0, &[1]), Err(BufferError::NeedsDownload));
}

#[test]
fn upload_of_an_empty_value_is_skipped() {
    let mut store: IdMap<Vec<u8>> = IdMap::new();
    let b = buffer(BufferLayout::with_items(0, 8), &mut store);
    assert_eq!(b.upload(), UploadPlan::Skip);
}

#[test]
fn growing_past_the_device_buffer_asks_for_a_new_one() {
    let mut store: IdMap<Vec<u8>> = IdMap::new();
    let mut b = buffer(BufferLayout::with_items(0, 8), &mut store);
    let old = b.id();
    b.push(&[1; 8]).unwrap();
    assert_eq!(b.resize_buffer(), ResizeStep::Allocate { size: 8 });
    assert_eq!(b.upload(), UploadPlan::ResizeThenWrite { size: 8 });
    b.replace_device_buffer(&mut store, vec![0u8; 8], 8);
    assert_eq!(b.device_size(), 8);
    assert_eq!(b.resize_buffer(), ResizeStep::Keep);
    assert_eq!(b.upload(), UploadPlan::Write);
    assert!(store.get(&old).is_none());
    assert!(store.get(&b.id()).is_some());
    assert_ne!(old.value(), b.id().value());
}

#[test]
fn resize_downloads_pending_data_first() {
    let mut store: IdMap<Vec<u8>> = IdMap::new();
    let mut b = buffer(BufferLayout::with_items(0, 8), &mut store);
    b.push(&[1; 8]).unwrap();
    b.mark_needs_download();
    assert_eq!(b.resize_buffer(), ResizeStep::Download);
    b.complete_download(&[2; 8]);
    assert_eq!(b.resize_buffer(), ResizeStep::Allocate { size: 8 });
}

// A device buffer stand-in: what the device holds, and how many readbacks
// have been made.
struct Device {
    memory: Vec<u8>,
    downloads: usize,
}

impl Device {
    fn upload(&mut self, b: &mut Buffer) {
        match b.upload() {
            UploadPlan::Skip => {}
            UploadPlan::Write => {
                let n = b.size();
                let bytes = b.read(0, n).unwrap();
                self.memory[..n].copy_from_slice(&bytes);
            }
            UploadPlan::ResizeThenWrite { size } => {
                self.memory = vec![0; size as usize];
                let n = b.size();
                let bytes = b.read(0, n).unwrap();
                self.memory[..n].copy_from_slice(&bytes);
            }
        }
    }

    fn item(&mut self, b: &mut Buffer, index: usize) -> Vec<u8> {
        if b.needs_download() {
            self.downloads += 1;
            let n = b.download_size();
            let data = self.memory[..n].to_vec();
            b.complete_download(&data);
        }
        let item = b.layout().item_size;
        b.read(b.layout().head_size + index * item, item).unwrap()
    }
}

#[test]
fn fixed_value_round_trips_without_download() {
    let mut store: IdMap<Vec<u8>> = IdMap::new();
    let mut b = buffer(BufferLayout::fixed(16), &mut store);
    let pattern: Vec<u8> = (1..=16).collect();
    b.write(0, &pattern).unwrap();
    let mut device = Device { memory: vec![0; 16], downloads: 0 };
    device.upload(&mut b);
    assert!(!b.needs_download());
    assert_eq!(device.memory, pattern);
    assert_eq!(b.read(0, 16), Ok(pattern));
    assert!(!b.needs_download());
    assert_eq!(device.downloads, 0);
}

#[test]
fn written_array_downloads_once_on_access() {
    let mut store: IdMap<Vec<u8>> = IdMap::new();
    let mut b = buffer(BufferLayout::with_items(0, 8), &mut store);
    for n in 0..5u8 {
        b.push(&[n; 8]).unwrap();
    }
    let mut device = Device { memory: vec![0; 4], downloads: 0 };
    device.upload(&mut b);
    assert_eq!(device.memory.len(), 40);
    // the shader doubles every byte
    for byte in device.memory.iter_mut() {
        *byte *= 2;
    }
    b.mark_needs_download();
    assert_eq!(device.item(&mut b, 0), vec![0; 8]);
    assert_eq!(device.downloads, 1);
    assert!(!b.needs_download());
    assert_eq!(device.item(&mut b, 4), vec![8; 8]);
    assert_eq!(device.downloads, 1);
}
