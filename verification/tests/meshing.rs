use bevy::color::Color;
use voxel_mesher::meshing::{
    build_chunk_mesh, generate_voxel_mesh, get_block_face_mesh_data, mesh_block_faces,
    update_chunk_mesh, UpdateMesh,
};
use voxel_mesher::visibility::{
    get_visible_block_faces, is_face_visible, mask_contains, neighbour_block, visible_face_mask,
};
use voxel_mesher::{Block, Chunk, Face, IVec3, MeshData, Vertex, World};

fn v(x: i32, y: i32, z: i32) -> IVec3 {
    IVec3::new(x, y, z)
}

fn green() -> Color {
    Color::srgb(0.0, 1.0, 0.0)
}

fn assert_well_formed(mesh: &MeshData) {
    assert_eq!(mesh.normals().len(), mesh.vertices().len());
    assert_eq!(mesh.colors().len(), mesh.vertices().len());
    assert_eq!(mesh.indices().len() % 3, 0);
    for index in mesh.indices() {
        assert!((*index as usize) < mesh.vertices().len());
    }
}

#[test]
fn new_mesh_is_empty() {
    let mesh = MeshData::new();
    assert!(mesh.vertices().is_empty());
    assert!(mesh.normals().is_empty());
    assert!(mesh.colors().is_empty());
    assert!(mesh.indices().is_empty());
}

#[test]
fn face_mesh_has_four_vertices_and_two_triangles() {
    let mesh = get_block_face_mesh_data(v(3, -4, 5), Face::Right, green());
    let corner = |x, y, z| Vertex { block: v(3, -4, 5), corner: v(x, y, z) };
    assert_eq!(
        mesh.vertices(),
        &vec![corner(1, -1, -1), corner(1, -1, 1), corner(1, 1, 1), corner(1, 1, -1)]
    );
    assert_eq!(mesh.normals(), &vec![v(1, 0, 0); 4]);
    assert_eq!(mesh.colors(), &vec![green(); 4]);
    assert_eq!(mesh.indices(), &vec![0, 3, 2, 2, 1, 0]);
}

#[test]
fn face_mesh_follows_the_tables_of_every_face() {
    for face in Face::all() {
        let mesh = get_block_face_mesh_data(v(0, 0, 0), face, green());
        let corners: Vec<IVec3> = mesh.vertices().iter().map(|vertex| vertex.corner).collect();
        assert_eq!(corners, face.corners().to_vec());
        assert!(mesh.vertices().iter().all(|vertex| vertex.block == v(0, 0, 0)));
        assert_eq!(mesh.normals(), &vec![face.as_ivec3(); 4]);
        assert_eq!(mesh.indices(), &face.winding().to_vec());
        assert_well_formed(&mesh);
    }
}

#[test]
fn face_mesh_is_the_same_for_the_same_input() {
    let first = get_block_face_mesh_data(v(7, 8, 9), Face::Bottom, green());
    let second = get_block_face_mesh_data(v(7, 8, 9), Face::Bottom, green());
    assert_eq!(first.vertices(), second.vertices());
    assert_eq!(first.normals(), second.normals());
    assert_eq!(first.colors(), second.colors());
    assert_eq!(first.indices(), second.indices());
}

#[test]
fn merge_appends_and_rebases_indices() {
    let mut mesh = get_block_face_mesh_data(v(0, 0, 0), Face::Front, green());
    let blue = Color::srgb(0.0, 0.0, 1.0);
    mesh.merge(get_block_face_mesh_data(v(1, 0, 0), Face::Top, blue));
    assert_eq!(mesh.vertices().len(), 8);
    assert_eq!(mesh.indices(), &vec![0, 1, 2, 2, 3, 0, 4, 7, 6, 6, 5, 4]);
    assert_eq!(mesh.vertices()[4], Vertex { block: v(1, 0, 0), corner: v(-1, 1, -1) });
    assert_eq!(mesh.normals()[3], v(0, 0, -1));
    assert_eq!(mesh.normals()[4], v(0, 1, 0));
    assert_eq!(mesh.colors()[3], green());
    assert_eq!(mesh.colors()[4], blue);
    assert_well_formed(&mesh);
}

#[test]
fn merging_an_empty_mesh_changes_nothing() {
    let mut mesh = get_block_face_mesh_data(v(0, 0, 0), Face::Left, green());
    mesh.merge(MeshData::new());
    assert_eq!(mesh.vertices().len(), 4);
    assert_eq!(mesh.indices(), &vec![0, 1, 2, 2, 3, 0]);
    let mut empty = MeshData::new();
    empty.merge(get_block_face_mesh_data(v(0, 0, 0), Face::Left, green()));
    assert_eq!(empty.vertices(), mesh.vertices());
    assert_eq!(empty.indices(), mesh.indices());
}

#[test]
fn merge_does_not_depend_on_grouping() {
    let fragment = |n: i32, face: Face| get_block_face_mesh_data(v(n, 0, 0), face, green());
    let mut one_by_one = MeshData::new();
    one_by_one.merge(fragment(0, Face::Front));
    one_by_one.merge(fragment(1, Face::Back));
    one_by_one.merge(fragment(2, Face::Top));

    let mut first_two = fragment(0, Face::Front);
    first_two.merge(fragment(1, Face::Back));
    let mut grouped = MeshData::new();
    grouped.merge(first_two);
    grouped.merge(fragment(2, Face::Top));

    let mut last_two = fragment(1, Face::Back);
    last_two.merge(fragment(2, Face::Top));
    let mut regrouped = fragment(0, Face::Front);
    regrouped.merge(last_two);

    for other in [&grouped, &regrouped] {
        assert_eq!(one_by_one.vertices(), other.vertices());
        assert_eq!(one_by_one.normals(), other.normals());
        assert_eq!(one_by_one.colors(), other.colors());
        assert_eq!(one_by_one.indices(), other.indices());
    }
    assert_eq!(one_by_one.vertices().len(), 12);
    assert_eq!(one_by_one.indices().len(), 18);
    assert_well_formed(&one_by_one);
}

#[test]
fn merge_order_does_not_change_the_counts() {
    let front = || get_block_face_mesh_data(v(0, 0, 0), Face::Front, green());
    let mut two = || {
        let mut mesh = get_block_face_mesh_data(v(1, 0, 0), Face::Top, green());
        mesh.merge(get_block_face_mesh_data(v(1, 0, 0), Face::Right, green()));
        mesh
    };
    let mut one_then_two = front();
    one_then_two.merge(two());
    let mut two_then_one = two();
    two_then_one.merge(front());
    assert_eq!(one_then_two.vertices().len(), 12);
    assert_eq!(two_then_one.vertices().len(), 12);
    assert_eq!(one_then_two.indices().len(), 18);
    assert_eq!(two_then_one.indices().len(), 18);
    assert_well_formed(&one_then_two);
    assert_well_formed(&two_then_one);
    assert_eq!(one_then_two.indices()[6..], [4, 7, 6, 6, 5, 4, 8, 11, 10, 10, 9, 8]);
    assert_eq!(two_then_one.indices()[12..], [8, 9, 10, 10, 11, 8]);
}

#[test]
fn can_merge_tells_whether_the_indices_still_fit() {
    let mesh = get_block_face_mesh_data(v(0, 0, 0), Face::Front, green());
    assert!(mesh.can_merge(&MeshData::new()));
    assert!(mesh.can_merge(&get_block_face_mesh_data(v(1, 0, 0), Face::Front, green())));
}

#[test]
fn enclosed_block_has_mask_zero_and_no_geometry() {
    let chunk = Chunk::<3>::create_filled(v(0, 0, 0), Block::solid(green()));
    let world = World::<3>::new();
    let centre = v(1, 1, 1);
    assert_eq!(visible_face_mask(centre, &chunk, &world), 0);
    assert!(get_visible_block_faces(centre, &chunk, &world).is_empty());
    let mesh = generate_voxel_mesh(centre, green(), &chunk, &world);
    assert_eq!(mesh.vertices().len(), 0);
    assert_eq!(mesh.indices().len(), 0);

    let mut buffer = get_block_face_mesh_data(v(0, 0, 0), Face::Front, green());
    buffer.merge(mesh);
    assert_eq!(buffer.vertices().len(), 4);
    assert_eq!(buffer.indices().len(), 6);
}

#[test]
fn exposed_block_has_all_bits_set_and_six_faces() {
    let mut chunk = Chunk::<3>::create_filled(v(0, 0, 0), Block::air());
    let centre = v(1, 1, 1);
    assert!(chunk.set_block(centre, Block::solid(green())));
    let world = World::<3>::new();
    assert_eq!(visible_face_mask(centre, &chunk, &world), 0b11_1111);
    assert_eq!(get_visible_block_faces(centre, &chunk, &world), Face::all().to_vec());
    let mesh = generate_voxel_mesh(centre, green(), &chunk, &world);
    assert_eq!(mesh.vertices().len(), 24);
    assert_eq!(mesh.indices().len(), 36);
    assert!(mesh.indices().iter().all(|index| *index < 24));

    let mut buffer = get_block_face_mesh_data(v(0, 0, 0), Face::Front, green());
    buffer.merge(get_block_face_mesh_data(v(0, 0, 0), Face::Back, green()));
    buffer.merge(mesh);
    assert_eq!(buffer.vertices().len(), 8 + 24);
    assert_eq!(buffer.indices().len(), 12 + 36);
    assert!(buffer.indices()[12..].iter().all(|index| (8..32).contains(index)));
}

#[test]
fn absent_neighbours_count_as_open() {
    let chunk = Chunk::<1>::create_filled(v(0, 0, 0), Block::solid(green()));
    let world = World::<1>::new();
    assert_eq!(visible_face_mask(v(0, 0, 0), &chunk, &world), 63);
    for face in Face::all() {
        assert_eq!(neighbour_block(v(0, 0, 0), face, &chunk, &world), None);
        assert!(is_face_visible(v(0, 0, 0), face, &chunk, &world));
    }
}

#[test]
fn mask_has_one_bit_for_each_visible_face() {
    let mut chunk = Chunk::<3>::create_filled(v(0, 0, 0), Block::air());
    let centre = v(1, 1, 1);
    chunk.set_block(centre, Block::solid(green()));
    chunk.set_block(v(1, 1, 0), Block::solid(green()));
    chunk.set_block(v(2, 1, 1), Block::solid(green()));
    chunk.set_block(v(1, 2, 1), Block { transparent: true, color: Some(green()) });
    let world = World::<3>::new();
    let mask = visible_face_mask(centre, &chunk, &world);
    assert_eq!(mask, 2 + 4 + 16 + 32);
    assert!(!mask_contains(mask, Face::Front));
    assert!(mask_contains(mask, Face::Back));
    assert!(mask_contains(mask, Face::Left));
    assert!(!mask_contains(mask, Face::Right));
    assert!(mask_contains(mask, Face::Bottom));
    assert!(mask_contains(mask, Face::Top));
    assert_eq!(
        get_visible_block_faces(centre, &chunk, &world),
        vec![Face::Back, Face::Left, Face::Bottom, Face::Top]
    );
    let mesh = generate_voxel_mesh(centre, green(), &chunk, &world);
    assert_eq!(mesh.vertices().len(), 16);
    assert_eq!(mesh.indices().len(), 24);
    assert_eq!(mesh.normals()[0], Face::Back.as_ivec3());
    assert_eq!(mesh.normals()[12], Face::Top.as_ivec3());
}

#[test]
fn mesh_block_faces_emits_the_faces_of_the_mask_in_order() {
    let mesh = mesh_block_faces(v(2, 3, 4), green(), 1 + 8);
    assert_eq!(mesh.vertices().len(), 8);
    assert_eq!(mesh.normals()[0], Face::Front.as_ivec3());
    assert_eq!(mesh.normals()[4], Face::Right.as_ivec3());
    assert_eq!(mesh.indices(), &vec![0, 1, 2, 2, 3, 0, 4, 7, 6, 6, 5, 4]);
    assert_eq!(mesh_block_faces(v(2, 3, 4), green(), 0).vertices().len(), 0);
    // Bits beyond the sixth name no face.
    assert_eq!(mesh_block_faces(v(2, 3, 4), green(), 64 + 128).vertices().len(), 0);
}

#[test]
fn boundary_faces_look_into_the_neighbouring_chunk() {
    let mut world = World::<2>::new();
    world.insert(Chunk::<2>::create_filled(v(0, 0, 0), Block::solid(green())));
    world.insert(Chunk::<2>::create_filled(v(1, 0, 0), Block::solid(green())));
    world.insert(Chunk::<2>::create_filled(v(0, -1, 0), Block::air()));
    let chunk = Chunk::<2>::create_filled(v(0, 0, 0), Block::solid(green()));
    // The block at the +X, -Y, -Z corner: solid beyond +X, air beyond -Y,
    // nothing registered beyond -Z, solid neighbours inside the chunk.
    let corner = v(1, 0, 0);
    assert_eq!(neighbour_block(corner, Face::Right, &chunk, &world), Some(Block::solid(green())));
    assert_eq!(neighbour_block(corner, Face::Bottom, &chunk, &world), Some(Block::air()));
    assert_eq!(neighbour_block(corner, Face::Front, &chunk, &world), None);
    assert_eq!(
        get_visible_block_faces(corner, &chunk, &world),
        vec![Face::Front, Face::Bottom]
    );
    assert_eq!(visible_face_mask(corner, &chunk, &world), 1 + 16);
}

#[test]
fn boundary_lookup_works_at_negative_chunk_coordinates() {
    let mut world = World::<4>::new();
    let mut far = Chunk::<4>::create_filled(v(-3, -1, -1), Block::air());
    far.set_block(v(3, 2, 1), Block::solid(green()));
    world.insert(far);
    let chunk = Chunk::<4>::create_filled(v(-2, -1, -1), Block::solid(green()));
    // The neighbour beyond the -X boundary of chunk (-2, -1, -1) is the
    // cell with local x = 3 of chunk (-3, -1, -1).
    assert!(!is_face_visible(v(0, 2, 1), Face::Left, &chunk, &world));
    assert!(is_face_visible(v(0, 2, 2), Face::Left, &chunk, &world));
    assert!(is_face_visible(v(0, 1, 1), Face::Left, &chunk, &world));
}

#[test]
fn solid_two_cubed_chunk_shows_only_its_outer_faces() {
    let chunk = Chunk::<2>::create_filled(v(0, 0, 0), Block::solid(green()));
    let world = World::<2>::new();
    let mut faces = 0;
    for x in 0..2 {
        for y in 0..2 {
            for z in 0..2 {
                let visible = get_visible_block_faces(v(x, y, z), &chunk, &world);
                assert_eq!(visible.len(), 3);
                for face in &visible {
                    let d = face.as_ivec3();
                    assert!(!Chunk::<2>::is_position_valid(v(x + d.x, y + d.y, z + d.z)));
                }
                faces += visible.len();
            }
        }
    }
    assert_eq!(faces, 24);
    let mesh = build_chunk_mesh(&chunk, &world, Color::WHITE);
    assert_eq!(mesh.vertices().len(), 96);
    assert_eq!(mesh.normals().len(), 96);
    assert_eq!(mesh.colors().len(), 96);
    assert_eq!(mesh.indices().len(), 144);
    assert_well_formed(&mesh);
    assert!(mesh.colors().iter().all(|color| *color == green()));
    for face in Face::all() {
        let quads = mesh.normals().iter().filter(|normal| **normal == face.as_ivec3()).count();
        assert_eq!(quads, 4 * 4);
    }
}

#[test]
fn registered_chunk_meshes_the_same_as_a_free_one() {
    let mut world = World::<2>::new();
    world.insert(Chunk::<2>::create_filled(v(0, 0, 0), Block::solid(green())));
    let mesh = build_chunk_mesh(world.get_chunk(v(0, 0, 0)).unwrap(), &world, Color::WHITE);
    assert_eq!(mesh.vertices().len(), 96);
    assert_eq!(mesh.indices().len(), 144);
}

#[test]
fn empty_chunk_has_an_empty_mesh() {
    let chunk = Chunk::<4>::create_filled(v(0, 0, 0), Block::air());
    let world = World::<4>::new();
    let mesh = build_chunk_mesh(&chunk, &world, Color::WHITE);
    assert_eq!(mesh.vertices().len(), 0);
    assert_eq!(mesh.normals().len(), 0);
    assert_eq!(mesh.colors().len(), 0);
    assert_eq!(mesh.indices().len(), 0);
}

#[test]
fn transparent_blocks_emit_nothing_whatever_their_colour() {
    let tinted_glass = Block { transparent: true, color: Some(green()) };
    let chunk = Chunk::<2>::create_filled(v(0, 0, 0), tinted_glass);
    let world = World::<2>::new();
    assert_eq!(build_chunk_mesh(&chunk, &world, Color::WHITE).vertices().len(), 0);
}

#[test]
fn chunk_mesh_visits_cells_x_then_y_then_z() {
    let mut chunk = Chunk::<2>::create_filled(v(0, 0, 0), Block::air());
    let shades = [(v(0, 0, 1), 0.1), (v(0, 1, 0), 0.2), (v(1, 0, 0), 0.3)];
    for (position, shade) in shades {
        chunk.set_block(position, Block::solid(Color::srgb(shade, shade, shade)));
    }
    let world = World::<2>::new();
    let mesh = build_chunk_mesh(&chunk, &world, Color::WHITE);
    assert_eq!(mesh.vertices().len(), 3 * 24);
    for (n, (position, shade)) in shades.into_iter().enumerate() {
        for k in 24 * n..24 * (n + 1) {
            assert_eq!(mesh.vertices()[k].block, position);
            assert_eq!(mesh.colors()[k], Color::srgb(shade, shade, shade));
        }
        for index in &mesh.indices()[36 * n..36 * (n + 1)] {
            assert!((24 * n..24 * (n + 1)).contains(&(*index as usize)));
        }
    }
    assert_well_formed(&mesh);
}

#[test]
fn colourless_blocks_take_the_fallback_colour() {
    let mut chunk = Chunk::<2>::create_filled(v(0, 0, 0), Block::air());
    chunk.set_block(v(0, 0, 0), Block::default());
    chunk.set_block(v(1, 1, 1), Block::solid(green()));
    let world = World::<2>::new();
    let grey = Color::srgb(0.5, 0.5, 0.5);
    let mesh = build_chunk_mesh(&chunk, &world, grey);
    assert_eq!(mesh.colors().len(), 48);
    assert!(mesh.colors()[..24].iter().all(|color| *color == grey));
    assert!(mesh.colors()[24..].iter().all(|color| *color == green()));
}

#[test]
fn update_builds_the_mesh_of_a_marked_chunk() {
    let mut chunk = Chunk::<2>::create_filled(v(0, 0, 0), Block::solid(green()));
    chunk.set_block(v(0, 0, 0), Block::default());
    let world = World::<2>::new();
    let mesh = update_chunk_mesh(Some(UpdateMesh), &chunk, &world).unwrap();
    assert_eq!(mesh.vertices().len(), 96);
    assert_eq!(mesh.indices().len(), 144);
    assert_well_formed(&mesh);
    // The colourless block at the origin comes first and is drawn white.
    assert!(mesh.colors()[..12].iter().all(|color| *color == Color::WHITE));
    assert!(mesh.colors()[12..].iter().all(|color| *color == green()));
    let expected = build_chunk_mesh(&chunk, &world, Color::WHITE);
    assert_eq!(mesh.vertices(), expected.vertices());
    assert_eq!(mesh.colors(), expected.colors());
    assert_eq!(mesh.indices(), expected.indices());
}

#[test]
fn update_leaves_an_unmarked_chunk_alone() {
    let chunk = Chunk::<2>::create_filled(v(0, 0, 0), Block::solid(green()));
    let world = World::<2>::new();
    assert!(update_chunk_mesh(None, &chunk, &world).is_none());
}
