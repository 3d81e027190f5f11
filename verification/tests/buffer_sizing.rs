use mesh_renderer::buffer::{model_buffer_write, next_power_of_two, ModelBufferWrite, INITIAL_MODEL_INSTANCES};
use mesh_renderer::draw::initial_model_sbuf_size;
use mesh_renderer::state::MeshInstance;

#[test]
fn next_power_of_two_small_values() {
    assert_eq!(next_power_of_two(0), 1);
    assert_eq!(next_power_of_two(1), 1);
    assert_eq!(next_power_of_two(2), 2);
    assert_eq!(next_power_of_two(3), 4);
    assert_eq!(next_power_of_two(5), 8);
    assert_eq!(next_power_of_two(64), 64);
    assert_eq!(next_power_of_two(65), 128);
    assert_eq!(next_power_of_two(8256), 16384);
}

#[test]
fn next_power_of_two_matches_std() {
    for n in 0usize..5000 {
        assert_eq!(next_power_of_two(n), n.next_power_of_two(), "n = {}", n);
    }
}

#[test]
fn next_power_of_two_at_the_top_of_the_range() {
    let top = isize::MAX as usize + 1;
    assert_eq!(next_power_of_two(top), top);
    assert_eq!(next_power_of_two(top - 1), top);
    assert_eq!(next_power_of_two(top / 2 + 1), top);
}

#[test]
fn model_buffer_write_keeps_a_buffer_that_fits() {
    assert_eq!(model_buffer_write(8192, 64), ModelBufferWrite::Write);
    assert_eq!(model_buffer_write(8192, 8192), ModelBufferWrite::Write);
    assert_eq!(model_buffer_write(0, 0), ModelBufferWrite::Write);
}

#[test]
fn model_buffer_write_grows_to_the_next_power_of_two() {
    assert_eq!(model_buffer_write(8192, 8256), ModelBufferWrite::Grow(16384));
    assert_eq!(model_buffer_write(0, 64), ModelBufferWrite::Grow(64));
    assert_eq!(model_buffer_write(100, 129), ModelBufferWrite::Grow(256));
}

#[test]
fn grown_buffer_is_never_smaller_than_before() {
    let mut size = 10usize;
    for required in [3usize, 11, 40, 17, 1000, 999, 4097] {
        let before = size;
        size = match model_buffer_write(size, required) {
            ModelBufferWrite::Write => size,
            ModelBufferWrite::Grow(new_size) => new_size,
        };
        assert!(size >= before);
        assert!(size >= required);
    }
    assert_eq!(size, 8192);
}

#[test]
fn initial_instance_buffer_holds_the_initial_instances() {
    let stride = std::mem::size_of::<MeshInstance<[f32; 16]>>();
    assert_eq!(stride, 64);
    assert_eq!(INITIAL_MODEL_INSTANCES, 128);
    assert_eq!(initial_model_sbuf_size::<[f32; 16]>(), 8192);
}
