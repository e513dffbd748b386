use rasterizer::raster::commit_fragment;
use rasterizer::raster::fan_indices;
use rasterizer::raster::retrieve;
use rasterizer::raster::triangle_indices;
use rasterizer::raster::FragmentShader;
use rasterizer::texture::DepthTexture;
use rasterizer::texture::Sampler;
use rasterizer::texture::Texture;

#[test]
fn triangle_indices_picks_each_triple() {
    let indices = [0usize, 1, 2, 2, 3, 0];
    assert_eq!(triangle_indices(&indices, 0), [0, 1, 2]);
    assert_eq!(triangle_indices(&indices, 1), [2, 3, 0]);
}

#[test]
fn retrieve_selects_by_index() {
    let source = [10u32, 11, 12, 13];
    assert_eq!(retrieve(&source, [2, 0, 3]), [12, 10, 13]);
}

#[test]
fn fan_of_a_triangle_is_itself() {
    let r = fan_indices(5, 3);
    assert_eq!(r, vec![5, 6, 7]);
}

#[test]
fn fan_of_a_heptagon() {
    // Seven vertices fan into five triangles around vertex 0.
    let r = fan_indices(0, 7);
    assert_eq!(r, vec![0, 1, 2, 0, 2, 3, 0, 3, 4, 0, 4, 5, 0, 5, 6]);
}

#[test]
fn fan_of_degenerate_polygons_is_empty() {
    assert!(fan_indices(4, 1).is_empty());
    assert!(fan_indices(4, 2).is_empty());
}

#[test]
fn commit_fragment_writes_only_on_pass() {
    let mut out = Texture::new(4, 4);
    let mut depth = DepthTexture::new(4, 4);
    // First fragment beats the cleared far plane.
    assert!(commit_fragment(&mut out, &mut depth, 1, 2, 600, 0xAA));
    assert_eq!(out.read(1, 2), 0xAA);
    assert_eq!(depth.read(1, 2), 600);
    // A farther fragment changes neither buffer.
    assert!(!commit_fragment(&mut out, &mut depth, 1, 2, 700, 0xBB));
    assert_eq!(out.read(1, 2), 0xAA);
    assert_eq!(depth.read(1, 2), 600);
    // A nearer fragment replaces both.
    assert!(commit_fragment(&mut out, &mut depth, 1, 2, 500, 0xCC));
    assert_eq!(out.read(1, 2), 0xCC);
    assert_eq!(depth.read(1, 2), 500);
    // Untouched pixels keep the clear colour.
    assert_eq!(out.read(0, 0), 0);
}

#[test]
fn fragment_shader_samples_its_texture() {
    let fs = FragmentShader {
        mesh_texture: Texture::from_data(vec![7, 8, 9, 10], 2, 2),
        mesh_sampler: Sampler {},
    };
    assert_eq!(fs.sample(0, 1), 9);
    assert_eq!(fs.sample(3, 3), 10);
}

#[test]
fn quad_renders_solid_through_commit() {
    // A depth-tested fill of a 2x2 region with one colour must leave
    // exactly that colour on every covered pixel and the clear colour
    // elsewhere.
    let mut out = Texture::new(4, 4);
    let mut depth = DepthTexture::new(4, 4);
    out.clear(0xFF000000);
    depth.clear(1.0f32.to_bits());
    let colour = 0xFF123456;
    for j in 1..3 {
        for i in 1..3 {
            assert!(commit_fragment(&mut out, &mut depth, i, j, 0.5f32.to_bits(), colour));
        }
    }
    for j in 0..4 {
        for i in 0..4 {
            if (1..3).contains(&i) && (1..3).contains(&j) {
                assert_eq!(out.read(i, j), colour);
            } else {
                assert_eq!(out.read(i, j), 0xFF000000);
            }
        }
    }
}
