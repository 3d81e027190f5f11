use mesh_renderer::draw::initial_model_sbuf_size;
use mesh_renderer::frame::CurrentRenderFrame;
use mesh_renderer::pipeline::DrawMethod;
use mesh_renderer::state::StateManager;
use mesh_renderer::surface::SurfaceSettings;

type Model = [f32; 16];

#[test]
fn instance_buffer_stays_a_power_of_two_across_draws() {
    let mut st: StateManager<u32, Model, u32> = StateManager::new(0);
    let a = st.push_mesh(1, 2, 3);
    let b = st.push_mesh(3, 4, 6);
    let mut size = initial_model_sbuf_size::<Model>();
    assert_eq!(size, 8192);
    for (frame, count) in [10usize, 200, 129, 1000, 5000, 3].into_iter().enumerate() {
        for k in 0..count {
            st.submit_object(if k % 3 == 0 { a } else { b }, [k as f32; 16], DrawMethod::Triangles);
        }
        let before = size;
        let plan = if frame % 2 == 0 {
            st.draw(&CurrentRenderFrame::Success(()), size, 0, false, false)
        } else {
            st.draw::<()>(&CurrentRenderFrame::Timeout, size, 0, false, false)
        };
        size = plan.model_sbuf_size;
        assert!(size >= before);
        assert!(size >= 8192);
        assert!(size.is_power_of_two());
    }
    assert_eq!(size, 262144);
}

#[test]
fn mesh_ids_stay_stable_across_calls() {
    let mut st: StateManager<u32, Model, u32> = StateManager::new(0);
    let mut ids = Vec::new();
    for k in 0..4u32 {
        ids.push(st.push_mesh(k, k + 100, 3 * k as usize));
        st.submit_object(ids[0], [0.0; 16], DrawMethod::Lines);
        st.batch_commands();
        st.draw(&CurrentRenderFrame::Success(()), 64, 0, true, false);
    }
    assert_eq!(ids, vec![0, 1, 2, 3]);
    for (k, id) in ids.iter().enumerate() {
        assert_eq!(st.meshes[*id].vertices_buf, k as u32);
        assert_eq!(st.meshes[*id].indices_buf, k as u32 + 100);
        assert_eq!(st.meshes[*id].index_count, 3 * k as u32);
    }
}

#[test]
fn surface_size_stays_nonzero_across_calls() {
    let mut s = SurfaceSettings::new(640, 480);
    let calls = [(0, 10), (800, 600), (5, 0), (1, 1), (0, 0)];
    for (w, h) in calls {
        s.resize(w, h);
        s.set_vsync(w % 2 == 0);
        assert!(s.width != 0 && s.height != 0);
    }
    assert_eq!((s.width, s.height), (1, 1));
}
