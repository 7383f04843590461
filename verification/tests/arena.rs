use render_core::deferred::DeferredUniforms;
use render_core::gpu::BufferUsage;
use render_core::pod::Pod;
use render_core::uniform::{
    ClearError, DynamicUniformBuffer, DynamicUniformBufferBlock, UniformBytes,
    DYNAMIC_UNIFORM_BUFFER_ALIGNMENT, DYNAMIC_UNIFORM_BUFFER_SIZE,
};

type Small = UniformBytes<16>;

fn small(fill: u8) -> Small {
    UniformBytes { data: [fill; 16] }
}

fn arena() -> DynamicUniformBuffer<Small, u32> {
    assert_eq!(Small::align() % DYNAMIC_UNIFORM_BUFFER_ALIGNMENT, 0);
    DynamicUniformBuffer::new(7)
}

#[test]
fn limits_are_those_of_uniform_bindings() {
    assert_eq!(DYNAMIC_UNIFORM_BUFFER_SIZE, 16384);
    assert_eq!(DYNAMIC_UNIFORM_BUFFER_ALIGNMENT, 256);
}

#[test]
fn buffer_descriptor_asks_for_a_writable_uniform_buffer() {
    let desc = DynamicUniformBuffer::<Small, u32>::buffer_descriptor();
    assert_eq!(desc.label, "dynamic uniform buffer");
    assert_eq!(desc.size, 16384);
    assert_eq!(desc.usage, BufferUsage { uniform: true, copy_dst: true });
    assert!(!desc.mapped_at_creation);
}

#[test]
fn new_arena_is_empty_and_zeroed() {
    let arena = arena();
    let write = arena.flush();
    assert_eq!(write.data.len(), 16384);
    assert!(write.data.iter().all(|b| *b == 0));
    assert!(arena.can_allocate());
}

#[test]
fn buffer_is_the_handle_given_at_construction() {
    let arena: DynamicUniformBuffer<Small, &str> = DynamicUniformBuffer::new("gpu buffer");
    assert_eq!(*arena.buffer(), "gpu buffer");
}

#[test]
fn block_of_a_small_element_is_one_alignment_unit() {
    assert_eq!(arena().block_size(), 256);
}

#[test]
fn block_of_a_large_element_is_its_size() {
    let arena: DynamicUniformBuffer<UniformBytes<300>, u32> = DynamicUniformBuffer::new(0);
    assert_eq!(UniformBytes::<300>::size(), 512);
    assert_eq!(arena.block_size(), 512);
    let uniforms: DynamicUniformBuffer<DeferredUniforms, u32> = DynamicUniformBuffer::new(0);
    assert_eq!(uniforms.block_size(), 768);
}

#[test]
fn block_of_an_empty_element_is_one_alignment_unit() {
    let mut arena: DynamicUniformBuffer<UniformBytes<0>, u32> = DynamicUniformBuffer::new(0);
    assert_eq!(arena.block_size(), 256);
    let first = arena.allocate(UniformBytes { data: [] });
    let second = arena.allocate(UniformBytes { data: [] });
    assert_eq!(first.offset(), 0);
    assert_eq!(second.offset(), 256);
    assert!(arena.flush().data.iter().all(|b| *b == 0));
}

#[test]
fn block_size_is_a_whole_number_of_alignment_units() {
    let a: DynamicUniformBuffer<UniformBytes<1>, u32> = DynamicUniformBuffer::new(0);
    let b: DynamicUniformBuffer<UniformBytes<256>, u32> = DynamicUniformBuffer::new(0);
    let c: DynamicUniformBuffer<UniformBytes<257>, u32> = DynamicUniformBuffer::new(0);
    let d: DynamicUniformBuffer<UniformBytes<1000>, u32> = DynamicUniformBuffer::new(0);
    for (size, raw) in [(a.block_size(), 1), (b.block_size(), 256), (c.block_size(), 257), (d.block_size(), 1000)] {
        assert!(size >= 256);
        assert!(size >= raw);
        assert_eq!(size % 256, 0);
    }
    assert_eq!(a.block_size(), 256);
    assert_eq!(b.block_size(), 256);
    assert_eq!(c.block_size(), 512);
    assert_eq!(d.block_size(), 1024);
}

#[test]
fn blocks_are_placed_one_after_another() {
    let mut arena = arena();
    let a = arena.allocate(small(1));
    let b = arena.allocate(small(2));
    let c = arena.allocate(small(3));
    assert_eq!(a.offset(), 0);
    assert_eq!(b.offset(), 256);
    assert_eq!(c.offset(), 512);
}

#[test]
fn offset_is_the_sum_of_the_blocks_before() {
    let mut arena: DynamicUniformBuffer<UniformBytes<600>, u32> = DynamicUniformBuffer::new(0);
    let size = arena.block_size();
    assert_eq!(size, 768);
    let mut held: Vec<DynamicUniformBufferBlock<UniformBytes<600>>> = Vec::new();
    let mut sum = 0;
    while arena.can_allocate() {
        let block = arena.allocate(UniformBytes { data: [9; 600] });
        assert_eq!(u64::from(block.offset()), sum);
        sum += size;
        held.push(block);
    }
    // 21 blocks of 768 bytes fit into 16384 bytes, a 22nd does not
    assert_eq!(held.len(), 21);
    assert_eq!(sum, 16128);
}

#[test]
fn arena_is_full_after_sixty_four_small_blocks() {
    let mut arena = arena();
    let mut held = Vec::new();
    for i in 0..64u32 {
        assert!(arena.can_allocate());
        let block = arena.allocate(small(i as u8));
        assert_eq!(block.offset(), i * 256);
        held.push(block);
    }
    assert!(!arena.can_allocate());
    assert_eq!(held[63].offset(), 16128);
}

#[test]
fn allocate_stages_the_initial_value() {
    let mut arena = arena();
    let _a = arena.allocate(small(0x11));
    let b = arena.allocate(small(0x22));
    let data = arena.flush().data;
    let at = b.offset() as usize;
    assert_eq!(&data[at..at + 16], &[0x22; 16]);
    assert_eq!(&data[0..16], &[0x11; 16]);
    // the rest of each block and of the arena is untouched
    assert!(data[16..256].iter().all(|b| *b == 0));
    assert!(data[at + 16..].iter().all(|b| *b == 0));
}

#[test]
fn write_block_replaces_the_staged_value() {
    let mut arena = arena();
    let a = arena.allocate(small(1));
    let b = arena.allocate(small(2));
    arena.write_block(&b, UniformBytes { data: [0xab; 16] });
    let data = arena.flush().data;
    assert_eq!(&data[256..272], &[0xab; 16]);
    assert_eq!(b.offset(), 256);
    assert_eq!(a.offset(), 0);
}

#[test]
fn write_block_leaves_other_blocks_alone() {
    let mut arena = arena();
    let a = arena.allocate(small(1));
    let b = arena.allocate(small(2));
    let c = arena.allocate(small(3));
    let before = arena.flush().data;
    arena.write_block(&b, small(0xee));
    let after = arena.flush().data;
    let (a, b, c) = (a.offset() as usize, b.offset() as usize, c.offset() as usize);
    assert_eq!(&after[a..a + 256], &before[a..a + 256]);
    assert_eq!(&after[c..], &before[c..]);
    assert_ne!(&after[b..b + 256], &before[b..b + 256]);
    assert_eq!(&after[b..b + 16], &[0xee; 16]);
}

#[test]
fn last_write_wins() {
    let mut arena = arena();
    let a = arena.allocate(small(0));
    let mut first = [0u8; 16];
    let mut second = [0u8; 16];
    for i in 0..16 {
        first[i] = 0xf0 + i as u8;
        second[i] = i as u8;
    }
    arena.write_block(&a, UniformBytes { data: first });
    arena.write_block(&a, UniformBytes { data: second });
    let twice = arena.flush().data;

    let mut other = arena_with_one_block();
    other.1.write_block(&other.0, UniformBytes { data: second });
    let once = other.1.flush().data;
    assert_eq!(twice, once);
    assert_eq!(&twice[0..16], &second);
}

fn arena_with_one_block() -> (DynamicUniformBufferBlock<Small>, DynamicUniformBuffer<Small, u32>) {
    let mut arena = arena();
    let block = arena.allocate(small(0));
    (block, arena)
}

#[test]
fn write_does_not_reach_the_device_before_flush() {
    let mut arena = arena();
    let a = arena.allocate(small(1));
    let sent = arena.flush();
    let sent_data = sent.data.clone();
    arena.write_block(&a, small(2));
    // what was handed out for sending is a copy of its own
    assert_eq!(&sent_data[0..16], &[1; 16]);
    assert_eq!(&arena.flush().data[0..16], &[2; 16]);
}

#[test]
fn flush_sends_the_whole_staged_copy_in_one_write() {
    let mut arena = arena();
    let _a = arena.allocate(small(5));
    let write = arena.flush();
    assert_eq!(*write.buffer, 7);
    assert_eq!(write.offset, 0);
    assert_eq!(write.data.len(), 16384);
    assert_eq!(&write.data[0..16], &[5; 16]);
}

#[test]
fn clear_of_a_fresh_arena_succeeds() {
    let mut arena = arena();
    assert_eq!(arena.clear(), Ok(()));
    assert_eq!(arena.allocate(small(1)).offset(), 0);
}

#[test]
fn clear_of_an_arena_without_blocks_succeeds_every_time() {
    let mut arena = arena();
    assert_eq!(arena.clear(), Ok(()));
    assert_eq!(arena.clear(), Ok(()));
    drop(arena.allocate(small(1)));
    assert_eq!(arena.clear(), Ok(()));
    assert_eq!(arena.clear(), Ok(()));
    // the arena still guards the blocks it hands out afterwards
    let held = arena.allocate(small(2));
    assert_eq!(held.offset(), 0);
    assert_eq!(arena.clear(), Err(ClearError::OutstandingBlocks));
    drop(held);
    assert_eq!(arena.clear(), Ok(()));
}

#[test]
fn clear_fails_while_a_block_is_held() {
    let mut arena = arena();
    let a = arena.allocate(small(1));
    assert_eq!(arena.clear(), Err(ClearError::OutstandingBlocks));
    // nothing has changed: the next block follows the first
    let b = arena.allocate(small(2));
    assert_eq!(a.offset(), 0);
    assert_eq!(b.offset(), 256);
    assert_eq!(&arena.flush().data[0..16], &[1; 16]);
}

#[test]
fn clear_fails_again_and_again_without_effect() {
    let mut arena = arena();
    let a = arena.allocate(small(1));
    let before = arena.flush().data;
    for _ in 0..3 {
        assert_eq!(arena.clear(), Err(ClearError::OutstandingBlocks));
    }
    assert_eq!(arena.flush().data, before);
    arena.write_block(&a, small(9));
    assert_eq!(&arena.flush().data[0..16], &[9; 16]);
    assert_eq!(arena.allocate(small(2)).offset(), 256);
}

#[test]
fn clear_fails_while_one_of_many_blocks_is_held() {
    let mut arena = arena();
    let a = arena.allocate(small(1));
    let b = arena.allocate(small(2));
    let c = arena.allocate(small(3));
    drop(a);
    drop(c);
    assert_eq!(arena.clear(), Err(ClearError::OutstandingBlocks));
    drop(b);
    assert_eq!(arena.clear(), Ok(()));
}

#[test]
fn clear_succeeds_once_all_blocks_are_dropped() {
    let mut arena = arena();
    let a = arena.allocate(small(1));
    let b = arena.allocate(small(2));
    let c = arena.allocate(small(3));
    assert_eq!((a.offset(), b.offset(), c.offset()), (0, 256, 512));
    assert!(arena.clear().is_err());
    drop(a);
    drop(b);
    drop(c);
    assert!(arena.clear().is_ok());
    assert_eq!(arena.allocate(small(4)).offset(), 0);
}

#[test]
fn clear_keeps_the_staged_bytes() {
    let mut arena = arena();
    drop(arena.allocate(small(0x77)));
    assert_eq!(arena.clear(), Ok(()));
    assert_eq!(&arena.flush().data[0..16], &[0x77; 16]);
    let again = arena.allocate(small(0x78));
    assert_eq!(again.offset(), 0);
    assert_eq!(&arena.flush().data[0..16], &[0x78; 16]);
}

#[test]
fn blocks_held_after_a_clear_block_the_next_clear() {
    let mut arena = arena();
    drop(arena.allocate(small(1)));
    assert_eq!(arena.clear(), Ok(()));
    let held = arena.allocate(small(2));
    assert_eq!(arena.clear(), Err(ClearError::OutstandingBlocks));
    drop(held);
    assert_eq!(arena.clear(), Ok(()));
}

#[test]
fn a_full_arena_has_room_again_after_clear() {
    let mut arena = arena();
    let mut held = Vec::new();
    while arena.can_allocate() {
        held.push(arena.allocate(small(1)));
    }
    assert_eq!(held.len(), 64);
    held.clear();
    assert_eq!(arena.clear(), Ok(()));
    assert!(arena.can_allocate());
    assert_eq!(arena.allocate(small(1)).offset(), 0);
}

#[test]
fn blocks_of_two_arenas_do_not_hold_each_other() {
    let mut one = arena();
    let mut two = arena();
    let held = one.allocate(small(1));
    drop(two.allocate(small(2)));
    assert_eq!(two.clear(), Ok(()));
    assert_eq!(one.clear(), Err(ClearError::OutstandingBlocks));
    drop(held);
    assert_eq!(one.clear(), Ok(()));
}

#[test]
fn an_element_larger_than_the_arena_never_fits() {
    let arena: DynamicUniformBuffer<UniformBytes<20000>, u32> = DynamicUniformBuffer::new(0);
    assert_eq!(arena.block_size(), 20224);
    assert!(!arena.can_allocate());
}

#[test]
fn an_element_as_large_as_the_arena_fits_once() {
    let mut arena: DynamicUniformBuffer<UniformBytes<16384>, u32> = DynamicUniformBuffer::new(0);
    assert_eq!(arena.block_size(), 16384);
    assert!(arena.can_allocate());
    let only = arena.allocate(UniformBytes { data: [0x5a; 16384] });
    assert_eq!(only.offset(), 0);
    assert!(!arena.can_allocate());
    assert_eq!(arena.flush().data, vec![0x5a; 16384]);
}

#[test]
fn clear_error_says_what_is_in_the_way() {
    assert_eq!(
        ClearError::OutstandingBlocks.message(),
        "Can't clear uniform buffer: there are outstanding references to allocated blocks."
    );
}
