use mesh_reindex::adjust::adjust;
use mesh_reindex::adjust::chain;
use mesh_reindex::adjust::Adjust;
use mesh_reindex::adjust::Chain;
use mesh_reindex::adjust::Id;
use mesh_reindex::adjust::SetMaterial;
use mesh_reindex::errors::AttributeKind;
use mesh_reindex::errors::ReindexError;
use mesh_reindex::mesh::SCALAR_ONE;
use mesh_reindex::model::tuple_eq;
use mesh_reindex::model::IndexTuple;
use mesh_reindex::model::MaterialRecord;
use mesh_reindex::vertex::get_checked;
use mesh_reindex::index::IndexType;
use mesh_reindex::mesh::Material;
use mesh_reindex::mesh::Mesh;
use mesh_reindex::mesh::Triangle;
use mesh_reindex::mesh::TriangleList;
use mesh_reindex::shapes::DroneParts;
use mesh_reindex::vertex::VertexPosition;

fn vertex(x: u32) -> VertexPosition {
    VertexPosition { position: [x, 0, 0] }
}

fn single_group_mesh(count: u32, tris: Vec<[u16; 3]>, material: Material) -> Mesh<VertexPosition, u16> {
    Mesh {
        vertices: (0..count).map(vertex).collect(),
        polygons: vec![(TriangleList(tris.into_iter().map(Triangle).collect()), material)],
    }
}

#[test]
fn append_shifts_only_the_appended_indices() {
    let mut a = single_group_mesh(3, vec![[0, 1, 2]], Material::default());
    let red = Material { diffuse: [9, 0, 0], ..Material::default() };
    let b = single_group_mesh(3, vec![[2, 1, 0]], red);
    a.append(&b).unwrap();
    assert_eq!(a.vertices.len(), 6);
    assert_eq!(a.polygons.len(), 2);
    // the first group is untouched
    assert_eq!(a.polygons[0].0 .0[0].0, [0u16, 1, 2]);
    // the appended group's indices are shifted by the old vertex count
    assert_eq!(a.polygons[1].0 .0[0].0, [5u16, 4, 3]);
    assert_eq!(a.polygons[1].1, red);
    // the appended mesh is unchanged
    assert_eq!(b.vertices.len(), 3);
    assert_eq!(b.polygons[0].0 .0[0].0, [2u16, 1, 0]);
}

#[test]
fn append_consume_behaves_like_append() {
    let mut a = single_group_mesh(2, vec![[1, 0, 1]], Material::default());
    let b = single_group_mesh(2, vec![[0, 1, 0]], Material::default());
    a.append_consume(b).unwrap();
    assert_eq!(a.vertices.len(), 4);
    assert_eq!(a.polygons[1].0 .0[0].0, [2u16, 3, 2]);
}

#[test]
fn append_overflow_leaves_the_mesh_unchanged() {
    let mut a: Mesh<VertexPosition, u8> = Mesh {
        vertices: (0..200).map(vertex).collect(),
        polygons: vec![],
    };
    let b: Mesh<VertexPosition, u8> = Mesh {
        vertices: (0..100).map(vertex).collect(),
        polygons: vec![],
    };
    let err = a.append(&b).unwrap_err();
    assert_eq!(err, ReindexError::IndexOverflow { index: 299 });
    assert_eq!(a.vertices.len(), 200);
    assert_eq!(a.polygons.len(), 0);
}

#[test]
fn append_overflowing_shift_amount_is_reported() {
    let mut a: Mesh<VertexPosition, u8> = Mesh {
        vertices: (0..300).map(vertex).collect(),
        polygons: vec![],
    };
    let b = single_group_mesh(0, vec![], Material::default());
    let b8: Mesh<VertexPosition, u8> = Mesh { vertices: b.vertices, polygons: vec![] };
    let err = a.append(&b8).unwrap_err();
    assert_eq!(err, ReindexError::IndexOverflow { index: 300 });
}

#[test]
fn append_consume_polygon_adds_one_group() {
    let mut a = single_group_mesh(2, vec![[0, 1, 0]], Material::default());
    let extra = vec![vertex(7), vertex(8), vertex(9)];
    let tris = TriangleList(vec![Triangle([0u16, 1, 2])]);
    let blue = Material { diffuse: [0, 0, 9], ..Material::default() };
    a.append_consume_polygon(&extra, tris, blue).unwrap();
    assert_eq!(a.vertices.len(), 5);
    assert_eq!(a.polygons.len(), 2);
    assert_eq!(a.polygons[1].0 .0[0].0, [2u16, 3, 4]);
    assert_eq!(a.polygons[1].1, blue);
}

#[test]
fn merge_groups_flattens_in_order() {
    let mesh: Mesh<VertexPosition, u16> = Mesh {
        vertices: (0..4).map(vertex).collect(),
        polygons: vec![
            (TriangleList(vec![Triangle([0u16, 1, 2])]), Material::default()),
            (
                TriangleList(vec![Triangle([1u16, 2, 3]), Triangle([3u16, 2, 1])]),
                Material::default(),
            ),
        ],
    };
    let (vertices, merged) = mesh.merge_groups();
    assert_eq!(vertices.len(), 4);
    let flat: Vec<[u16; 3]> = merged.0.iter().map(|t| t.0).collect();
    assert_eq!(flat, vec![[0, 1, 2], [1, 2, 3], [3, 2, 1]]);
}

#[test]
fn flatten_indices_lists_corners_in_order() {
    let list = TriangleList(vec![Triangle([4u16, 5, 6]), Triangle([7u16, 8, 9])]);
    assert_eq!(list.flatten_indices(), vec![4u16, 5, 6, 7, 8, 9]);
}

#[test]
fn index_type_conversions_round_trip() {
    assert_eq!(<u8 as IndexType>::try_from_usize(255), Some(255u8));
    assert_eq!(<u8 as IndexType>::try_from_usize(256), None);
    assert_eq!(<u16 as IndexType>::try_from_usize(65535), Some(65535u16));
    assert_eq!(<u16 as IndexType>::try_from_usize(65536), None);
    assert_eq!(<u32 as IndexType>::try_from_usize(12345), Some(12345u32));
    assert_eq!(IndexType::to_usize(200u8), 200usize);
    assert_eq!(IndexType::to_usize(60000u16), 60000usize);
    assert_eq!(IndexType::to_usize(4000000000u32), 4000000000usize);
}

#[test]
fn material_conversion_uses_defaults_for_absent_fields() {
    let record = MaterialRecord { kd: None, ks: Some([5, 6, 7]), d: None };
    let material = Material::from_record(&record);
    assert_eq!(material.diffuse, [SCALAR_ONE; 3]);
    assert_eq!(material.specular, [5, 6, 7]);
    assert_eq!(material.opacity, SCALAR_ONE);
}

#[test]
fn identity_adjustment_returns_its_input() {
    assert_eq!(Id.adjust(41), 41);
    assert_eq!(Id.adjust("text"), "text");
}

#[test]
fn chained_adjustments_apply_in_sequence() {
    let both: Chain<Id, Id> = chain(Id, Id);
    assert_eq!(both.adjust(7), 7);
}

#[test]
fn adjusted_chaining_keeps_data_and_order() {
    let start = adjust(10u32, Id);
    assert_eq!(start.data, 10);
    let right = start.chain_right(Id);
    assert_eq!(right.data, 10);
    let left = right.chain_left(Id);
    assert_eq!(left.data, 10);
    assert_eq!(left.adjust.adjust(3), 3);
}

#[test]
fn set_material_carries_its_payload() {
    let m = Material::default();
    let set = SetMaterial(m);
    assert_eq!(set.0, m);
}

#[test]
fn drone_parts_keep_body_and_rotors() {
    let drone = DroneParts::assemble(1u32, vec![2, 3, 4]);
    assert_eq!(drone.body, 1);
    assert_eq!(drone.rotors, vec![2, 3, 4]);
}

#[test]
fn tuple_equality_distinguishes_missing_from_present() {
    let bare = IndexTuple(0, None, None);
    let with_normal = IndexTuple(0, None, Some(0));
    assert!(tuple_eq(&bare, &bare));
    assert!(!tuple_eq(&bare, &with_normal));
    assert!(tuple_eq(&with_normal, &IndexTuple(0, None, Some(0))));
    assert!(!tuple_eq(&with_normal, &IndexTuple(0, Some(0), Some(0))));
}

#[test]
fn get_checked_reports_the_array_and_bounds() {
    let data = [10u32, 20, 30];
    assert_eq!(get_checked(&data, 1, AttributeKind::Position), Ok(&20));
    assert_eq!(
        get_checked(&data, 3, AttributeKind::Texture),
        Err(ReindexError::IndexOutOfRange { kind: AttributeKind::Texture, len: 3, index: 3 })
    );
}
