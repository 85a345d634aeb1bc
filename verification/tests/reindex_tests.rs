use mesh_reindex::errors::AttributeKind;
use mesh_reindex::errors::ReindexError;
use mesh_reindex::mesh::Material;
use mesh_reindex::mesh::SCALAR_ONE;
use mesh_reindex::mesh::SCALAR_ZERO;
use mesh_reindex::model::Group;
use mesh_reindex::model::IndexTuple;
use mesh_reindex::model::MaterialRecord;
use mesh_reindex::model::Model;
use mesh_reindex::model::Object;
use mesh_reindex::reindex::reindex;
use mesh_reindex::vertex::VertexPosition;
use mesh_reindex::vertex::VertexPositionNormal;
use mesh_reindex::vertex::VertexPositionNormalTexture;

fn pos_tuple(p: usize) -> IndexTuple {
    IndexTuple(p, None, None)
}

fn model_with_one_group(
    position: Vec<[u32; 3]>,
    normal: Vec<[u32; 3]>,
    texture: Vec<[u32; 2]>,
    polys: Vec<Vec<IndexTuple>>,
    material: Option<MaterialRecord>,
) -> Model {
    Model {
        position,
        normal,
        texture,
        objects: vec![Object { groups: vec![Group { polys, material }] }],
    }
}

fn three_points() -> Vec<[u32; 3]> {
    vec![[1, 2, 3], [4, 5, 6], [7, 8, 9]]
}

#[test]
fn flat_triangle_has_position_as_normal() {
    let pts = three_points();
    let model = model_with_one_group(
        pts.clone(),
        pts.clone(),
        vec![],
        vec![vec![pos_tuple(0), pos_tuple(1), pos_tuple(2)]],
        None,
    );
    let mesh = reindex::<VertexPositionNormal, u16>(&model).unwrap();
    assert_eq!(mesh.vertices.len(), 3);
    for (i, v) in mesh.vertices.iter().enumerate() {
        assert_eq!(v.position, pts[i]);
        assert_eq!(v.normal, v.position);
    }
    assert_eq!(mesh.polygons.len(), 1);
    let tris = &mesh.polygons[0].0 .0;
    assert_eq!(tris.len(), 1);
    assert_eq!(tris[0].0, [0u16, 1, 2]);
}

#[test]
fn shared_vertex_is_not_duplicated() {
    let model = model_with_one_group(
        vec![[0, 0, 0], [1, 0, 0], [1, 1, 0], [0, 1, 0]],
        vec![[0, 0, 0], [1, 0, 0], [1, 1, 0], [0, 1, 0]],
        vec![],
        vec![vec![
            pos_tuple(0),
            pos_tuple(1),
            pos_tuple(2),
            pos_tuple(0),
            pos_tuple(2),
            pos_tuple(3),
        ]],
        None,
    );
    let mesh = reindex::<VertexPositionNormal, u16>(&model).unwrap();
    assert_eq!(mesh.vertices.len(), 4);
    let tris = &mesh.polygons[0].0 .0;
    assert_eq!(tris.len(), 2);
    assert_eq!(tris[0].0, [0u16, 1, 2]);
    assert_eq!(tris[1].0, [0u16, 2, 3]);
}

#[test]
fn overflow_of_u8_indices_fails() {
    let n = 300usize;
    let position: Vec<[u32; 3]> = (0..n).map(|i| [i as u32, 0, 0]).collect();
    let corners: Vec<IndexTuple> = (0..n).map(pos_tuple).collect();
    let model = model_with_one_group(position.clone(), position, vec![], vec![corners], None);
    let err = reindex::<VertexPositionNormal, u8>(&model).unwrap_err();
    assert_eq!(err, ReindexError::IndexOverflow { index: 256 });
}

#[test]
fn same_model_fits_u16_indices() {
    let n = 300usize;
    let position: Vec<[u32; 3]> = (0..n).map(|i| [i as u32, 0, 0]).collect();
    let corners: Vec<IndexTuple> = (0..n).map(pos_tuple).collect();
    let model = model_with_one_group(position.clone(), position, vec![], vec![corners], None);
    let mesh = reindex::<VertexPositionNormal, u16>(&model).unwrap();
    assert_eq!(mesh.vertices.len(), 300);
    assert_eq!(mesh.polygons[0].0 .0.len(), 100);
}

#[test]
fn absent_material_becomes_default() {
    let pts = three_points();
    let model = model_with_one_group(
        pts.clone(),
        pts,
        vec![],
        vec![vec![pos_tuple(0), pos_tuple(1), pos_tuple(2)]],
        None,
    );
    let mesh = reindex::<VertexPositionNormal, u16>(&model).unwrap();
    let material = mesh.polygons[0].1;
    assert_eq!(material, Material::default());
    assert_eq!(material.diffuse, [SCALAR_ONE; 3]);
    assert_eq!(material.specular, [SCALAR_ZERO; 3]);
    assert_eq!(material.opacity, SCALAR_ONE);
    assert_eq!(f32::from_bits(SCALAR_ONE), 1.0);
    assert_eq!(f32::from_bits(SCALAR_ZERO), 0.0);
}

#[test]
fn material_record_fields_carry_over() {
    let pts = three_points();
    let record = MaterialRecord {
        kd: Some([10, 11, 12]),
        ks: None,
        d: Some(77),
    };
    let model = model_with_one_group(
        pts.clone(),
        pts,
        vec![],
        vec![vec![pos_tuple(0), pos_tuple(1), pos_tuple(2)]],
        Some(record),
    );
    let mesh = reindex::<VertexPositionNormal, u16>(&model).unwrap();
    let material = mesh.polygons[0].1;
    assert_eq!(material.diffuse, [10, 11, 12]);
    assert_eq!(material.specular, [SCALAR_ZERO; 3]);
    assert_eq!(material.opacity, 77);
}

#[test]
fn vertices_keep_first_occurrence_order() {
    let pts = three_points();
    let corners = vec![
        pos_tuple(2),
        pos_tuple(0),
        pos_tuple(2),
        pos_tuple(1),
        pos_tuple(0),
        pos_tuple(2),
    ];
    let model = model_with_one_group(pts.clone(), pts.clone(), vec![], vec![corners], None);
    let mesh = reindex::<VertexPositionNormal, u16>(&model).unwrap();
    assert_eq!(mesh.vertices.len(), 3);
    assert_eq!(mesh.vertices[0].position, pts[2]);
    assert_eq!(mesh.vertices[1].position, pts[0]);
    assert_eq!(mesh.vertices[2].position, pts[1]);
    let tris = &mesh.polygons[0].0 .0;
    assert_eq!(tris[0].0, [0u16, 1, 0]);
    assert_eq!(tris[1].0, [2u16, 1, 0]);
}

#[test]
fn differing_tuples_stay_distinct_even_when_values_match() {
    let pts = three_points();
    // both corners extract the identical vertex value, but their tuples
    // differ, so they must not be merged
    let corners = vec![
        IndexTuple(0, None, None),
        IndexTuple(0, None, Some(0)),
        pos_tuple(1),
    ];
    let model = model_with_one_group(pts.clone(), pts, vec![], vec![corners], None);
    let mesh = reindex::<VertexPositionNormal, u16>(&model).unwrap();
    assert_eq!(mesh.vertices.len(), 3);
    assert_eq!(mesh.vertices[0], mesh.vertices[1]);
    assert_eq!(mesh.polygons[0].0 .0[0].0, [0u16, 1, 2]);
}

#[test]
fn texture_without_normal_is_rejected() {
    let pts = three_points();
    let corners = vec![IndexTuple(0, Some(0), None), pos_tuple(1), pos_tuple(2)];
    let model = model_with_one_group(pts.clone(), pts, vec![[0, 0]].into(), vec![corners], None);
    let err = reindex::<VertexPositionNormal, u16>(&model).unwrap_err();
    assert_eq!(err, ReindexError::MissingNormalIndex);
}

#[test]
fn normal_index_is_used_when_present() {
    let pts = three_points();
    let normals = vec![[100, 101, 102], [103, 104, 105]];
    let corners = vec![
        IndexTuple(0, None, Some(1)),
        IndexTuple(1, Some(0), Some(0)),
        IndexTuple(2, None, Some(0)),
    ];
    let model = model_with_one_group(pts.clone(), normals.clone(), vec![[0, 0]], vec![corners], None);
    let mesh = reindex::<VertexPositionNormal, u16>(&model).unwrap();
    assert_eq!(mesh.vertices[0].normal, normals[1]);
    assert_eq!(mesh.vertices[1].normal, normals[0]);
    assert_eq!(mesh.vertices[2].normal, normals[0]);
}

#[test]
fn position_only_shape_ignores_other_fields() {
    let pts = three_points();
    let corners = vec![
        IndexTuple(0, Some(9), None),
        IndexTuple(1, None, Some(9)),
        IndexTuple(2, Some(9), Some(9)),
    ];
    let model = model_with_one_group(pts.clone(), vec![], vec![], vec![corners], None);
    let mesh = reindex::<VertexPosition, u16>(&model).unwrap();
    assert_eq!(mesh.vertices.len(), 3);
    for (i, v) in mesh.vertices.iter().enumerate() {
        assert_eq!(v.position, pts[i]);
    }
}

#[test]
fn full_shape_extracts_all_three_arrays() {
    let pts = three_points();
    let normals = vec![[20, 21, 22], [23, 24, 25]];
    let textures = vec![[30, 31], [32, 33]];
    let corners = vec![
        IndexTuple(0, Some(1), Some(0)),
        IndexTuple(1, Some(0), Some(1)),
        IndexTuple(2, Some(0), Some(0)),
    ];
    let model = model_with_one_group(pts.clone(), normals.clone(), textures.clone(), vec![corners], None);
    let mesh = reindex::<VertexPositionNormalTexture, u16>(&model).unwrap();
    assert_eq!(mesh.vertices[0].position, pts[0]);
    assert_eq!(mesh.vertices[0].normal, normals[0]);
    assert_eq!(mesh.vertices[0].texture, textures[1]);
    assert_eq!(mesh.vertices[1].normal, normals[1]);
    assert_eq!(mesh.vertices[1].texture, textures[0]);
}

#[test]
fn full_shape_reports_missing_texture() {
    let pts = three_points();
    let corners = vec![IndexTuple(0, None, Some(0)), pos_tuple(1), pos_tuple(2)];
    let model = model_with_one_group(pts.clone(), pts.clone(), vec![[0, 0]], vec![corners], None);
    let err = reindex::<VertexPositionNormalTexture, u16>(&model).unwrap_err();
    assert_eq!(err, ReindexError::MissingTextureIndex);
}

#[test]
fn full_shape_defaults_all_absent_fields_to_position_index() {
    let pts = three_points();
    let textures = vec![[30, 31], [32, 33], [34, 35]];
    let corners = vec![pos_tuple(0), pos_tuple(1), pos_tuple(2)];
    let model = model_with_one_group(pts.clone(), pts.clone(), textures.clone(), vec![corners], None);
    let mesh = reindex::<VertexPositionNormalTexture, u16>(&model).unwrap();
    for (i, v) in mesh.vertices.iter().enumerate() {
        assert_eq!(v.position, pts[i]);
        assert_eq!(v.normal, pts[i]);
        assert_eq!(v.texture, textures[i]);
    }
}

#[test]
fn out_of_range_position_index_is_reported() {
    let pts = three_points();
    let corners = vec![pos_tuple(0), pos_tuple(5), pos_tuple(2)];
    let model = model_with_one_group(pts.clone(), pts, vec![], vec![corners], None);
    let err = reindex::<VertexPositionNormal, u16>(&model).unwrap_err();
    assert_eq!(
        err,
        ReindexError::IndexOutOfRange { kind: AttributeKind::Position, len: 3, index: 5 }
    );
}

#[test]
fn out_of_range_normal_index_is_reported() {
    let pts = three_points();
    let normals = vec![[0, 0, 0]];
    let corners = vec![IndexTuple(0, None, Some(4)), pos_tuple(1), pos_tuple(2)];
    let model = model_with_one_group(pts, normals, vec![], vec![corners], None);
    let err = reindex::<VertexPositionNormal, u16>(&model).unwrap_err();
    assert_eq!(
        err,
        ReindexError::IndexOutOfRange { kind: AttributeKind::Normal, len: 1, index: 4 }
    );
}

#[test]
fn non_triangulated_polygon_is_rejected() {
    let pts = three_points();
    let corners = vec![pos_tuple(0), pos_tuple(1), pos_tuple(2), pos_tuple(0)];
    let model = model_with_one_group(pts.clone(), pts, vec![], vec![corners], None);
    let err = reindex::<VertexPositionNormal, u16>(&model).unwrap_err();
    assert_eq!(err, ReindexError::PolygonNotTriangulated { len: 4 });
}

#[test]
fn first_error_in_traversal_order_wins() {
    let pts = three_points();
    let bad_length = vec![pos_tuple(0), pos_tuple(1)];
    let bad_index = vec![pos_tuple(9), pos_tuple(9), pos_tuple(9)];
    let model = model_with_one_group(pts.clone(), pts, vec![], vec![bad_length, bad_index], None);
    let err = reindex::<VertexPositionNormal, u16>(&model).unwrap_err();
    assert_eq!(err, ReindexError::PolygonNotTriangulated { len: 2 });
}

#[test]
fn empty_model_gives_empty_mesh() {
    let model = Model { position: vec![], normal: vec![], texture: vec![], objects: vec![] };
    let mesh = reindex::<VertexPositionNormal, u8>(&model).unwrap();
    assert_eq!(mesh.vertices.len(), 0);
    assert_eq!(mesh.polygons.len(), 0);
}

#[test]
fn groups_are_emitted_in_traversal_order() {
    let pts = three_points();
    let red = MaterialRecord { kd: Some([1, 0, 0]), ks: None, d: None };
    let green = MaterialRecord { kd: Some([0, 1, 0]), ks: None, d: None };
    let model = Model {
        position: pts.clone(),
        normal: pts,
        texture: vec![],
        objects: vec![
            Object {
                groups: vec![
                    Group {
                        polys: vec![vec![pos_tuple(0), pos_tuple(1), pos_tuple(2)]],
                        material: Some(red),
                    },
                    Group { polys: vec![], material: None },
                ],
            },
            Object {
                groups: vec![Group {
                    polys: vec![vec![pos_tuple(2), pos_tuple(1), pos_tuple(0)]],
                    material: Some(green),
                }],
            },
        ],
    };
    let mesh = reindex::<VertexPositionNormal, u16>(&model).unwrap();
    assert_eq!(mesh.polygons.len(), 3);
    assert_eq!(mesh.polygons[0].1.diffuse, [1, 0, 0]);
    assert_eq!(mesh.polygons[1].1, Material::default());
    assert_eq!(mesh.polygons[1].0 .0.len(), 0);
    assert_eq!(mesh.polygons[2].1.diffuse, [0, 1, 0]);
    // deduplication spans groups and objects: the second triangle reuses
    // the dense indices assigned in the first
    assert_eq!(mesh.polygons[2].0 .0[0].0, [2u16, 1, 0]);
    assert_eq!(mesh.vertices.len(), 3);
    // every emitted index is a valid dense index
    for (triangles, _) in &mesh.polygons {
        for triangle in &triangles.0 {
            for index in triangle.0 {
                assert!((index as usize) < mesh.vertices.len());
            }
        }
    }
}
