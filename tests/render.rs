use roa::render::{
    create_render_channel, shader_pair, RenderInstruction, RenderQueue, RenderSystem, Renderer,
    VisualType,
};

type Inst = RenderInstruction<&'static str, u8, i32>;

fn mesh_of(i: &Inst) -> Option<&'static str> {
    match i {
        RenderInstruction::Draw(call) => Some(call.mesh),
        _ => None,
    }
}

#[test]
fn second_frame_replaces_first() {
    let mut queue: RenderQueue<Inst> = create_render_channel();
    let mut sys = RenderSystem::new();
    let mut renderer = Renderer::new();
    sys.run(vec![VisualType::Still("A", None)], &mut queue);
    renderer.buffer(&mut queue);
    assert_eq!(renderer.cache().len(), 1);
    assert_eq!(mesh_of(&renderer.cache()[0]), Some("A"));
    sys.run(vec![VisualType::Still("B", None)], &mut queue);
    renderer.buffer(&mut queue);
    assert_eq!(renderer.cache().len(), 1);
    assert_eq!(mesh_of(&renderer.cache()[0]), Some("B"));
    assert_eq!(queue.len(), 0);
}

#[test]
fn frame_start_clears_only_what_came_before() {
    let mut queue: RenderQueue<Inst> = RenderQueue::new();
    let mut renderer: Renderer<&'static str, u8, i32> = Renderer::new();
    queue.send(RenderInstruction::Translate(1, 2));
    renderer.buffer(&mut queue);
    assert_eq!(renderer.cache().len(), 1);
    queue.send(RenderInstruction::Zoom(3));
    queue.send(RenderInstruction::StartBuffer);
    queue.send(RenderInstruction::SetOrigin(4, 5));
    queue.send(RenderInstruction::Translate(6, 7));
    renderer.buffer(&mut queue);
    assert_eq!(renderer.cache().len(), 2);
    assert!(matches!(renderer.cache()[0], RenderInstruction::SetOrigin(4, 5)));
    assert!(matches!(renderer.cache()[1], RenderInstruction::Translate(6, 7)));
    // An empty queue leaves the cache as it is.
    renderer.buffer(&mut queue);
    assert_eq!(renderer.cache().len(), 2);
}

#[test]
fn render_system_picks_shaders_and_skips_sprites() {
    let mut queue: RenderQueue<Inst> = RenderQueue::new();
    let mut sys = RenderSystem::new();
    sys.run(
        vec![VisualType::Still("plain", None), VisualType::Sprite, VisualType::Still("tex", Some(7))],
        &mut queue,
    );
    let all = queue.take_all();
    assert_eq!(all.len(), 3);
    assert!(matches!(all[0], RenderInstruction::StartBuffer));
    match &all[1] {
        RenderInstruction::Draw(call) => {
            assert_eq!(call.mesh, "plain");
            assert_eq!(call.texture, None);
            assert_eq!(call.vertex_shader, "basic");
            assert_eq!(call.fragment_shader, "basic");
        }
        _ => panic!("expected a draw"),
    }
    match &all[2] {
        RenderInstruction::Draw(call) => {
            assert_eq!(call.mesh, "tex");
            assert_eq!(call.texture, Some(7));
            assert_eq!(call.vertex_shader, "basic");
            assert_eq!(call.fragment_shader, "basic_tex");
        }
        _ => panic!("expected a draw"),
    }
}

#[test]
fn empty_world_queues_only_frame_start() {
    let mut queue: RenderQueue<Inst> = RenderQueue::new();
    RenderSystem::new().run(Vec::new(), &mut queue);
    let all = queue.take_all();
    assert_eq!(all.len(), 1);
    assert!(matches!(all[0], RenderInstruction::StartBuffer));
}

#[test]
fn shader_pair_names() {
    assert_eq!(shader_pair(false), ("basic".to_string(), "basic".to_string()));
    assert_eq!(shader_pair(true), ("basic".to_string(), "basic_tex".to_string()));
}
