use raytracer::cache::Cache;
use raytracer::camera::{Camera, CameraInitOptions};
use raytracer::geometry::{Geometry, HitInfo, Sphere, Tbn3};
use raytracer::item::Item;
use raytracer::material::{Dielectric, Lambertian, Light, Material, Metal};
use raytracer::scene::{Hit, HitInfoAndMaterial, Scene, SceneError};
use raytracer::sky_box::{Cubemap, Equirectangular, Face, SkyBox};
use raytracer::texture::{Solid, Texture};

type V = [f32; 3];

fn camera() -> Camera<f32, V> {
    Camera {
        pos: [0.0; 3],
        lower_left_corner: [-1.0, -1.0, -1.0],
        hz: [2.0, 0.0, 0.0],
        vt: [0.0, 2.0, 0.0],
        init_options: CameraInitOptions {
            pos: [0.0; 3],
            look_at: [0.0, 0.0, -1.0],
            vup: [0.0, 1.0, 0.0],
            vt_fov: 90.0,
            aspect: 1.0,
        },
    }
}

fn solid(shade: f32) -> Texture<V> {
    Texture::Solid(Solid { color: [shade; 3] })
}

fn ball(radius: f32) -> Geometry<f32, V> {
    Geometry::Sphere(Sphere { center: [0.0; 3], radius })
}

/// Three textures, two shapes, four materials, three items.
fn scene() -> Scene<f32, V> {
    let mut texture_cache = Cache::new();
    texture_cache.add("sky", solid(0.1));
    texture_cache.add("white", solid(1.0));
    texture_cache.add("bumps", solid(0.5));
    let mut geometry_cache = Cache::new();
    geometry_cache.add("small", ball(1.0));
    geometry_cache.add("large", ball(2.0));
    let mut material_cache = Cache::new();
    material_cache.add(
        "matt",
        Material::Lambertian(Lambertian { texture_idx: 1, normal_map_idx: Some(2) }),
    );
    material_cache.add("glass", Material::Dielectric(Dielectric { ref_idx: 1.5, normal_map_idx: None }));
    material_cache.add("lamp", Material::Light(Light { texture_idx: 1, brightness: [4.0; 3] }));
    material_cache.add(
        "mirror",
        Material::Metal(Metal { texture_idx: 0, normal_map_idx: None, fuzz: 0.0 }),
    );
    Scene {
        sky_box: SkyBox::Equirectangular(Equirectangular { tex_idx: 0 }),
        camera: camera(),
        texture_cache,
        geometry_cache,
        material_cache,
        items: vec![
            Item { geometry_idx: 0, material_idx: 0 },
            Item { geometry_idx: 1, material_idx: 3 },
            Item { geometry_idx: 1, material_idx: 1 },
        ],
    }
}

fn shade_of(texture: &Texture<V>) -> f32 {
    match texture {
        Texture::Solid(solid) => solid.color[0],
        _ => panic!("the test scene has solid textures only"),
    }
}

fn radius_of(geometry: &Geometry<f32, V>) -> f32 {
    match geometry {
        Geometry::Sphere(sphere) => sphere.radius,
        _ => panic!("the test scene has spheres only"),
    }
}

#[test]
fn a_scene_whose_references_resolve_is_valid() {
    assert_eq!(Ok(()), scene().validate());
}

#[test]
fn an_empty_scene_needs_its_sky_texture() {
    let mut empty: Scene<f32, V> = Scene {
        sky_box: SkyBox::Cubemap(Cubemap::all(0)),
        camera: camera(),
        texture_cache: Cache::new(),
        geometry_cache: Cache::new(),
        material_cache: Cache::new(),
        items: Vec::new(),
    };
    assert_eq!(Err(SceneError::SkyBoxTexture { texture_idx: 0 }), empty.validate());
    empty.texture_cache.add("sky", solid(0.0));
    assert_eq!(Ok(()), empty.validate());
}

#[test]
fn validate_reports_a_sky_texture_that_is_missing() {
    let mut scene = scene();
    scene.sky_box = SkyBox::Cubemap(Cubemap {
        up_idx: 0,
        dn_idx: 1,
        lf_idx: 2,
        rt_idx: 3,
        ft_idx: 4,
        bk_idx: 0,
    });
    assert_eq!(Err(SceneError::SkyBoxTexture { texture_idx: 3 }), scene.validate());
}

#[test]
fn validate_reports_a_material_texture_that_is_missing() {
    let mut scene = scene();
    scene.material_cache.add(
        "broken",
        Material::Metal(Metal { texture_idx: 3, normal_map_idx: Some(4), fuzz: 0.1 }),
    );
    assert_eq!(
        Err(SceneError::MaterialTexture { material_idx: 4, texture_idx: 3 }),
        scene.validate()
    );
}

#[test]
fn validate_reports_a_normal_map_that_is_missing() {
    let mut scene = scene();
    scene
        .material_cache
        .add("broken", Material::Dielectric(Dielectric { ref_idx: 1.3, normal_map_idx: Some(7) }));
    scene.items.push(Item { geometry_idx: 9, material_idx: 9 });
    assert_eq!(
        Err(SceneError::MaterialNormalMap { material_idx: 4, texture_idx: 7 }),
        scene.validate()
    );
}

#[test]
fn validate_reports_an_item_whose_shape_is_missing() {
    let mut scene = scene();
    scene.items.push(Item { geometry_idx: 2, material_idx: 4 });
    scene.items.push(Item { geometry_idx: 0, material_idx: 5 });
    assert_eq!(Err(SceneError::ItemGeometry { item: 3, geometry_idx: 2 }), scene.validate());
}

#[test]
fn validate_reports_an_item_whose_material_is_missing() {
    let mut scene = scene();
    scene.items.push(Item { geometry_idx: 1, material_idx: 4 });
    assert_eq!(Err(SceneError::ItemMaterial { item: 3, material_idx: 4 }), scene.validate());
}

#[test]
fn validate_reports_the_sky_before_materials_and_items() {
    let mut scene = scene();
    scene.sky_box = SkyBox::Equirectangular(Equirectangular { tex_idx: 3 });
    scene.material_cache.add("broken", Material::Light(Light { texture_idx: 5, brightness: [1.0; 3] }));
    scene.items.push(Item { geometry_idx: 5, material_idx: 5 });
    assert_eq!(Err(SceneError::SkyBoxTexture { texture_idx: 3 }), scene.validate());
}

#[test]
fn lookups_follow_the_indices() {
    let scene = scene();
    assert_eq!(1.0, radius_of(scene.geometry_of(0)));
    assert_eq!(2.0, radius_of(scene.geometry_of(1)));
    assert_eq!(2.0, radius_of(scene.geometry_of(2)));
    assert!(matches!(scene.material_of(0), Material::Lambertian(_)));
    assert!(matches!(scene.material_of(1), Material::Metal(_)));
    assert!(matches!(scene.material_of(2), Material::Dielectric(_)));
    let material = |k: usize| scene.material_cache.get(k);
    assert_eq!(Some(1.0), scene.texture_of(material(0)).map(shade_of));
    assert_eq!(None, scene.texture_of(material(1)).map(shade_of));
    assert_eq!(Some(1.0), scene.texture_of(material(2)).map(shade_of));
    assert_eq!(Some(0.1), scene.texture_of(material(3)).map(shade_of));
    assert_eq!(Some(0.5), scene.normal_map_of(material(0)).map(shade_of));
    assert_eq!(None, scene.normal_map_of(material(1)).map(shade_of));
    assert_eq!(None, scene.normal_map_of(material(2)).map(shade_of));
    assert_eq!(None, scene.normal_map_of(material(3)).map(shade_of));
    assert_eq!(Some(0.1), scene.texture_of(scene.material_of(1)).map(shade_of));
    assert_eq!(0.1, shade_of(scene.sky_texture(Face::Up)));
}

#[test]
fn sky_texture_of_a_cubemap_depends_on_the_face() {
    let mut scene = scene();
    scene.sky_box = SkyBox::Cubemap(Cubemap {
        up_idx: 0,
        dn_idx: 1,
        lf_idx: 2,
        rt_idx: 0,
        ft_idx: 1,
        bk_idx: 2,
    });
    assert_eq!(Ok(()), scene.validate());
    assert_eq!(0.1, shade_of(scene.sky_texture(Face::Up)));
    assert_eq!(1.0, shade_of(scene.sky_texture(Face::Dn)));
    assert_eq!(0.5, shade_of(scene.sky_texture(Face::Lf)));
    assert_eq!(0.1, shade_of(scene.sky_texture(Face::Rt)));
    assert_eq!(1.0, shade_of(scene.sky_texture(Face::Ft)));
    assert_eq!(0.5, shade_of(scene.sky_texture(Face::Bk)));
}

#[test]
fn material_references() {
    let matt: Material<f32, V> =
        Material::Lambertian(Lambertian { texture_idx: 3, normal_map_idx: Some(4) });
    assert_eq!(Some(3), matt.texture_idx());
    assert_eq!(Some(4), matt.normal_map_idx());
    let glass: Material<f32, V> =
        Material::Dielectric(Dielectric { ref_idx: 1.5, normal_map_idx: Some(6) });
    assert_eq!(None, glass.texture_idx());
    assert_eq!(Some(6), glass.normal_map_idx());
    let lamp: Material<f32, V> = Material::Light(Light { texture_idx: 8, brightness: [1.0; 3] });
    assert_eq!(Some(8), lamp.texture_idx());
    assert_eq!(None, lamp.normal_map_idx());
    let mirror: Material<f32, V> =
        Material::Metal(Metal { texture_idx: 2, normal_map_idx: None, fuzz: 0.5 });
    assert_eq!(Some(2), mirror.texture_idx());
    assert_eq!(None, mirror.normal_map_idx());
}

fn hit_at(t: f32) -> Option<Hit<f32, V>> {
    let info = HitInfo {
        t,
        u: 0.0,
        v: 0.0,
        pos: [0.0, 0.0, t],
        tbn: Tbn3 { t: [1.0, 0.0, 0.0], b: [0.0, 1.0, 0.0], n: [0.0, 0.0, 1.0] },
    };
    Some(Hit { key: raytracer::geometry::order_key(t.to_bits()), info })
}

#[test]
fn hit_is_none_where_the_ray_misses_every_item() {
    let scene = scene();
    assert!(scene.hit(vec![None, None, None]).is_none());
}

#[test]
fn hit_picks_the_nearest_and_its_material() {
    let scene = scene();
    let HitInfoAndMaterial(info, material) =
        scene.hit(vec![hit_at(5.0), hit_at(2.5), hit_at(4.0)]).unwrap();
    assert_eq!(2.5, info.t);
    assert!(matches!(material, Material::Metal(_)));
    let HitInfoAndMaterial(info, material) = scene.hit(vec![None, None, hit_at(0.25)]).unwrap();
    assert_eq!(0.25, info.t);
    assert!(matches!(material, Material::Dielectric(_)));
}

#[test]
fn hit_prefers_the_first_item_on_a_tie() {
    let scene = scene();
    let mut second = hit_at(1.0);
    second.as_mut().unwrap().info.u = 0.5;
    let mut third = hit_at(1.0);
    third.as_mut().unwrap().info.u = 0.75;
    let HitInfoAndMaterial(info, material) = scene.hit(vec![None, second, third]).unwrap();
    assert_eq!(0.5, info.u);
    assert!(matches!(material, Material::Metal(_)));
}
