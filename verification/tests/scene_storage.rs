use scarefire::camera::{mat_identity, Camera};
use scarefire::fixed::FP_ONE;
use scarefire::handle::GLHandle;
use scarefire::material::{BlendMode, DepthTestMode, GlCommand, Material};
use scarefire::mesh::{StaticMesh, Vec3F, Vertex};
use scarefire::program::Program;
use scarefire::scene::{Pool, Scene, SceneObject};

fn quad_mesh() -> StaticMesh {
    let positions = [
        Vec3F { x: -FP_ONE, y: -FP_ONE, z: 0 },
        Vec3F { x: -FP_ONE, y: FP_ONE, z: 0 },
        Vec3F { x: FP_ONE, y: FP_ONE, z: 0 },
        Vec3F { x: FP_ONE, y: -FP_ONE, z: 0 },
    ];
    let vertices: Vec<Vertex> = positions
        .iter()
        .map(|&position| Vertex {
            position,
            normal: Vec3F { x: 0, y: 0, z: FP_ONE },
            color: Vec3F { x: FP_ONE, y: FP_ONE, z: FP_ONE },
        })
        .collect();
    StaticMesh::new(vertices, vec![0, 1, 2, 2, 3, 0]).unwrap()
}

fn plain_material(handle: u32) -> Material {
    let program = Program::from_uniform_entries(GLHandle::new(handle), &Vec::new(), false).unwrap();
    Material::new(program)
}

#[test]
fn pool_tracks_liveness_and_generations() {
    let mut pool: Pool<u32> = Pool::new();
    let a = pool.create(10);
    assert!(pool.is_alive(a));
    assert_eq!(pool.get(a), Some(&10));
    pool.retain(a);
    pool.release(a);
    assert!(pool.is_alive(a));
    pool.release(a);
    assert!(!pool.is_alive(a));
    assert_eq!(pool.get(a), None);
    // the slot is reused under a fresh generation; the old id stays dead
    let b = pool.create(20);
    assert_eq!(b.index, a.index);
    assert_ne!(b.generation, a.generation);
    assert!(!pool.is_alive(a));
    assert_eq!(pool.get(b), Some(&20));
}

#[test]
fn grouping_counts_objects_and_groups() {
    let mut scene = Scene::default();
    let me0 = scene.add_mesh(quad_mesh());
    let me1 = scene.add_mesh(quad_mesh());
    let m0 = scene.add_material(plain_material(1));
    let m1 = scene.add_material(plain_material(2));
    // five objects over three distinct (material, mesh) pairs
    scene.add_object(SceneObject::new(mat_identity(), me0, m0));
    scene.add_object(SceneObject::new(mat_identity(), me0, m0));
    scene.add_object(SceneObject::new(mat_identity(), me1, m0));
    scene.add_object(SceneObject::new(mat_identity(), me1, m0));
    scene.add_object(SceneObject::new(mat_identity(), me0, m1));
    assert_eq!(scene.objects.len(&scene.materials, &scene.meshes), 5);
    assert_eq!(scene.objects.groups.len(), 3);
    assert_eq!(
        scene.objects.iter_material_groups(&scene.materials, &scene.meshes).len(),
        3
    );
}

#[test]
fn dead_material_groups_become_absent() {
    let mut scene = Scene::default();
    let me0 = scene.add_mesh(quad_mesh());
    let m0 = scene.add_material(plain_material(1));
    let m1 = scene.add_material(plain_material(2));
    scene.add_object(SceneObject::new(mat_identity(), me0, m0));
    scene.add_object(SceneObject::new(mat_identity(), me0, m0));
    scene.add_object(SceneObject::new(mat_identity(), me0, m1));
    assert_eq!(scene.objects.len(&scene.materials, &scene.meshes), 3);
    // dropping the last owner of one material removes its groups from
    // every count and traversal, though the entries still sit in memory
    scene.release_material(m1);
    assert_eq!(scene.objects.len(&scene.materials, &scene.meshes), 2);
    assert_eq!(
        scene.objects.iter_material_groups(&scene.materials, &scene.meshes).len(),
        1
    );
    assert_eq!(scene.objects.groups.len(), 2);
    scene.release_material(m0);
    assert_eq!(scene.objects.len(&scene.materials, &scene.meshes), 0);
    // the mesh alone keeps nothing reachable
    assert!(scene.meshes.is_alive(me0));
}

#[test]
fn dead_mesh_groups_become_absent() {
    let mut scene = Scene::default();
    let me0 = scene.add_mesh(quad_mesh());
    let me1 = scene.add_mesh(quad_mesh());
    let m0 = scene.add_material(plain_material(1));
    scene.add_object(SceneObject::new(mat_identity(), me0, m0));
    scene.add_object(SceneObject::new(mat_identity(), me1, m0));
    assert_eq!(scene.objects.len(&scene.materials, &scene.meshes), 2);
    scene.release_mesh(me1);
    assert_eq!(scene.objects.len(&scene.materials, &scene.meshes), 1);
}

#[test]
fn render_plan_binds_material_once_per_group() {
    let mut scene = Scene::default();
    let me0 = scene.add_mesh(quad_mesh());
    let m0 = scene.add_material(plain_material(7));
    scene.add_object(SceneObject::new(mat_identity(), me0, m0));
    scene.add_object(SceneObject::new(mat_identity(), me0, m0));
    let plan = scene.render();
    assert_eq!(plan.batches.len(), 1);
    let batch = &plan.batches[0];
    assert_eq!(batch.material, m0);
    assert_eq!(batch.mesh, me0);
    assert_eq!(batch.transforms.len(), 2);
    // one program bind per batch, at the end of its command list
    let uses: Vec<&GlCommand> = batch
        .commands
        .iter()
        .filter(|c| matches!(c, GlCommand::UseProgram(_)))
        .collect();
    assert_eq!(uses.len(), 1);
    assert_eq!(*batch.commands.last().unwrap(), GlCommand::UseProgram(7));
    // the frame constants carry the camera product and the normalized sun
    let one = FP_ONE as f64;
    let s = 1.0 / 3f64.sqrt();
    assert!((plan.frame.sun_dir.x as f64 / one - s).abs() < 1e-6);
    assert!((plan.frame.sun_dir.y as f64 / one - s).abs() < 1e-6);
    assert!((plan.frame.sun_dir.z as f64 / one - s).abs() < 1e-6);
    assert_eq!(plan.frame.sun_color, scene.sun_color);
}

#[test]
fn material_bind_commands_follow_modes() {
    let mut mat = plain_material(3);
    let cmds = mat.bind();
    assert_eq!(
        cmds,
        vec![
            GlCommand::Disable(0x0BE2),
            GlCommand::Enable(0x0B71),
            GlCommand::DepthFunc(0x0203),
            GlCommand::UseProgram(3),
        ]
    );
    mat.blend_mode = BlendMode::Alpha;
    mat.depth_test_mode = DepthTestMode::Reversed;
    mat.set_texture(0, 42);
    let cmds = mat.bind();
    assert_eq!(
        cmds,
        vec![
            GlCommand::Enable(0x0BE2),
            GlCommand::BlendFunc(0x0302, 0x0303),
            GlCommand::Enable(0x0B71),
            GlCommand::DepthFunc(0x0206),
            GlCommand::BindTextureUnit(0, 42),
            GlCommand::UseProgram(3),
        ]
    );
}

#[test]
fn set_texture_last_write_wins() {
    let mut mat = plain_material(1);
    mat.set_texture(0, 10);
    mat.set_texture(1, 11);
    mat.set_texture(0, 12);
    assert_eq!(mat.texture_in_slot(0), Some(12));
    assert_eq!(mat.texture_in_slot(1), Some(11));
    assert_eq!(mat.texture_in_slot(2), None);
    assert_eq!(mat.textures.len(), 2);
}

#[test]
fn transform_components_of_identity() {
    let mut scene = Scene::default();
    let me0 = scene.add_mesh(quad_mesh());
    let m0 = scene.add_material(plain_material(1));
    let obj = SceneObject::new(mat_identity(), me0, m0);
    let tc = obj.get_transform_components();
    assert_eq!((tc.position.x.num, tc.position.y.num, tc.position.z.num), (0, 0, 0));
    assert_eq!(tc.scale.x.num, FP_ONE as i128);
    assert_eq!(tc.scale.y.num, FP_ONE as i128);
    assert_eq!(tc.scale.z.num, FP_ONE as i128);
    assert_eq!(tc.rotation_x.x.num, FP_ONE as i128);
    assert_eq!(tc.rotation_y.y.num, FP_ONE as i128);
    assert_eq!(tc.rotation_z.z.num, FP_ONE as i128);
    assert_eq!(obj.mesh(), me0);
    assert_eq!(obj.material(), m0);
}
