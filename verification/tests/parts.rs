use renderer::bsdf::{
    count_with_type, BxdfType, ALL, DIFFUSE, GLOSSY, REFLECTION, SPECULAR, TRANSMISSION,
};
use renderer::config::{load_sampler, Handedness, Sampler};
use renderer::filter::{table_index, TABLE_WIDTH};
use renderer::sampler::StratifiedSampler;
use renderer::shape::{Mesh, Shape};
use renderer::TransportMode;

#[test]
fn stratified_sampler_from_config() {
    let config = Sampler::StratifiedSampler {
        x_strata_count: 3,
        y_strata_count: 2,
        jitter: true,
    };
    assert_eq!(load_sampler(&config), StratifiedSampler::new(3, 2, 5, 0, true));
    let s = load_sampler(&Sampler::StratifiedSampler {
        x_strata_count: 1,
        y_strata_count: 4,
        jitter: false,
    });
    assert_eq!(s.x_strata_count, 1);
    assert_eq!(s.y_strata_count, 4);
    assert_eq!(s.sampled_dimensions, 5);
    assert_eq!(s.seed, 0);
    assert!(!s.jitter);
}

#[test]
fn handedness_and_transport_mode_compare() {
    assert_ne!(Handedness::LeftHanded, Handedness::RightHanded);
    assert_ne!(TransportMode::Radiance, TransportMode::Importance);
}

#[test]
fn bxdf_type_flags() {
    let diffuse_reflection = BxdfType { bits: DIFFUSE }.union(BxdfType { bits: REFLECTION });
    assert_eq!(diffuse_reflection.bits, 0b00101);
    assert!(diffuse_reflection.has_type(BxdfType::all()));
    assert!(diffuse_reflection.has_type(diffuse_reflection));
    assert!(!diffuse_reflection.has_type(BxdfType { bits: REFLECTION }));
    assert!(BxdfType { bits: REFLECTION }.has_type(diffuse_reflection));
    assert!(BxdfType::empty().has_type(BxdfType { bits: GLOSSY }));
    assert_eq!(BxdfType::from_bits_truncate(0xff).bits, ALL);
    assert_eq!(
        diffuse_reflection.intersection(BxdfType { bits: REFLECTION | SPECULAR }).bits,
        REFLECTION
    );
}

#[test]
fn count_bxdfs_with_type() {
    let types = [
        BxdfType { bits: DIFFUSE | REFLECTION },
        BxdfType { bits: SPECULAR | TRANSMISSION },
        BxdfType { bits: SPECULAR | REFLECTION },
        BxdfType { bits: DIFFUSE | TRANSMISSION },
    ];
    let reflection_request = BxdfType { bits: ALL & !TRANSMISSION };
    assert_eq!(count_with_type(&types, reflection_request), 2);
    assert_eq!(count_with_type(&types, BxdfType::all()), 4);
    assert_eq!(count_with_type(&types, BxdfType { bits: SPECULAR }), 0);
    assert_eq!(count_with_type(&[], BxdfType::all()), 0);
}

#[test]
fn mesh_triangles() {
    let mesh = Mesh {
        vertex_indices: vec![0, 1, 2, 2, 1, 3, 7],
    };
    let triangles = mesh.triangles();
    assert_eq!(triangles.len(), 2);
    assert_eq!(triangles[0].index_in_mesh, 0);
    assert_eq!(triangles[1].index_in_mesh, 1);
    assert_eq!(triangles[1].vertex_indices(), (2, 1, 3));
    let Shape::Triangle(t) = Shape::triangle(&mesh, 1);
    assert_eq!(t.index_in_mesh, 1);
    assert_eq!(t.vertex_indices(), (2, 1, 3));
    assert!(std::ptr::eq(t.mesh, &mesh));
}

#[test]
fn precomputed_table_is_row_major() {
    assert_eq!(TABLE_WIDTH, 16);
    assert_eq!(table_index(0, 0), 0);
    assert_eq!(table_index(15, 0), 15);
    assert_eq!(table_index(0, 1), 16);
    assert_eq!(table_index(15, 15), 255);
}
