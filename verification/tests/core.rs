use raytracer::aabb::Aabb;
use raytracer::camera::Camera;
use raytracer::diffuse_light::Diffuselight;
use raytracer::hittable_list::{Hittablelist, Object};
use raytracer::lambertian::Lambertian;
use raytracer::material::Material;
use raytracer::bvhnode::Bvhnode;
use raytracer::perlin::Perlin;
use raytracer::ray::Ray;
use raytracer::rect::XZrect;
use raytracer::render::{calc_color, ray_color};
use raytracer::rng::{random_fx_unit, random_int_between};
use raytracer::checker_texture::Checkertexture;
use raytracer::image_texture::Imagetexture;
use raytracer::metal::Metal;
use raytracer::dielectric::Dielectric;
use raytracer::movingsphere::Movingsphere;
use raytracer::rotate::RotateY;
use raytracer::translate::Translate;
use raytracer::texture::Texture;
use raytracer::solidcolor::Solidcolor;
use raytracer::sphere::Sphere;
use raytracer::vec3::Vec3;
use raytracer::SCALE;

const S: i64 = 65536;

#[test]
fn aabb_hit_through_center() {
    let b = Aabb::new(&Vec3::new(0, 0, 0), &Vec3::new(2 * S, 2 * S, 2 * S));
    let r = Ray::new(&Vec3::new(-2 * S, S, S), &Vec3::new(S, 0, 0), 0);
    assert!(b.hit(&r, 0, 10 * S));
}

#[test]
fn aabb_miss_offset_box() {
    let b = Aabb::new(&Vec3::new(0, 0, 0), &Vec3::new(2 * S, 2 * S, 2 * S));
    let r = Ray::new(&Vec3::new(-2 * S, 5 * S, S), &Vec3::new(S, 0, 0), 0);
    assert!(!b.hit(&r, 0, 10 * S));
}

#[test]
fn surrounding_box_contains_both() {
    let a = Aabb::new(&Vec3::new(-S, 0, 0), &Vec3::new(S, S, S));
    let b = Aabb::new(&Vec3::new(0, -S, 0), &Vec3::new(2 * S, 0, 3 * S));
    let u = Aabb::surrounding_box(&a, &b);
    assert!(u.min().x() <= a.min().x() && u.min().x() <= b.min().x());
    assert!(u.min().y() <= a.min().y() && u.min().y() <= b.min().y());
    assert!(u.min().z() <= a.min().z() && u.min().z() <= b.min().z());
    assert!(u.max().x() >= a.max().x() && u.max().x() >= b.max().x());
    assert!(u.max().y() >= a.max().y() && u.max().y() >= b.max().y());
    assert!(u.max().z() >= a.max().z() && u.max().z() >= b.max().z());
}

#[test]
fn surrounding_box_idempotent() {
    let a = Aabb::new(&Vec3::new(-S, -2 * S, 3), &Vec3::new(S, 5, 3 * S));
    let u = Aabb::surrounding_box(&a, &a);
    assert_eq!(u.min(), a.min());
    assert_eq!(u.max(), a.max());
}

fn white_lambertian() -> Option<Box<Material>> {
    Some(Box::new(Material::Lambertian(Lambertian::new(&Vec3::new(S, S, S)))))
}

#[test]
fn sphere_round_trip() {
    let sph = Sphere::new(&Vec3::new(0, 0, 0), S, &white_lambertian());
    let r = Ray::new(&Vec3::new(-3 * S, 0, 0), &Vec3::new(S, 0, 0), 0);
    let rec = sph.hit(&r, 0, 100 * S).expect("the ray points at the sphere");
    assert_eq!(rec.t, 2 * S);
    assert_eq!(rec.p, Vec3::new(-S, 0, 0));
    assert_eq!(rec.normal, Vec3::new(-S, 0, 0));
    assert!(rec.front_face);
}

#[test]
fn sphere_miss() {
    let sph = Sphere::new(&Vec3::new(0, 0, 0), S, &white_lambertian());
    let r = Ray::new(&Vec3::new(-3 * S, 3 * S, 0), &Vec3::new(S, 0, 0), 0);
    assert!(sph.hit(&r, 0, 100 * S).is_none());
}

#[test]
fn integrator_depth_zero_is_black() {
    let mut world = Hittablelist::default_new();
    world.add(Object::Sphere(Sphere::new(&Vec3::new(0, 0, 0), S, &white_lambertian())));
    let bg = Vec3::new(32768, 45875, S);
    let r = Ray::new(&Vec3::new(0, 0, -3 * S), &Vec3::new(0, 0, S), 0);
    let c = ray_color(&r, &bg, &world, 0);
    assert_eq!(c, Vec3::new(0, 0, 0));
}

#[test]
fn integrator_never_negative() {
    let mut world = Hittablelist::default_new();
    world.add(Object::Sphere(Sphere::new(&Vec3::new(0, 0, 0), S, &white_lambertian())));
    world.add(Object::Sphere(Sphere::new(&Vec3::new(0, -101 * S, 0), 100 * S, &white_lambertian())));
    let bg = Vec3::new(0, 0, 0);
    for _ in 0..32 {
        let r = Ray::new(&Vec3::new(0, 0, -3 * S), &Vec3::new(0, 0, S), 0);
        let c = ray_color(&r, &bg, &world, 4);
        assert!(c.x >= 0 && c.y >= 0 && c.z >= 0);
    }
}

#[test]
fn lambertian_front_pole_scatter() {
    let sph = Sphere::new(&Vec3::new(0, 0, 0), S, &white_lambertian());
    let r = Ray::new(&Vec3::new(0, 0, -3 * S), &Vec3::new(0, 0, S), 0);
    let rec = sph.hit(&r, 0, 100 * S).expect("the ray points at the front pole");
    let mat = rec.mat_ptr.as_ref().expect("the sphere carries a material");
    let (att, sc) = mat.scatter(&r, &rec).expect("a diffuse surface always scatters");
    assert_eq!(att, Vec3::new(S, S, S));
    let dot = (sc.dir.x as i128) * (rec.normal.x as i128) + (sc.dir.y as i128)
        * (rec.normal.y as i128) + (sc.dir.z as i128) * (rec.normal.z as i128);
    assert!(dot > 0);
    assert_eq!(sc.orig, rec.p);
}

#[test]
fn light_emits_its_radiance() {
    let light: Option<Box<Material>> = Some(Box::new(Material::Diffuselight(
        Diffuselight::new_from_color(&Vec3::new(15 * S, 15 * S, 15 * S)),
    )));
    let wall = white_lambertian();
    let mut world = Hittablelist::default_new();
    world.add(Object::XZrect(XZrect::new(&light, -S, S, -S, S, 2 * S)));
    world.add(Object::XZrect(XZrect::new(&wall, -4 * S, 4 * S, -4 * S, 4 * S, 5 * S)));
    let bg = Vec3::new(0, 0, 0);
    let r = Ray::new(&Vec3::new(0, 0, 0), &Vec3::new(0, S, 0), 0);
    let c = ray_color(&r, &bg, &world, 4);
    assert_eq!(c, Vec3::new(15 * S, 15 * S, 15 * S));
    let c0 = ray_color(&r, &bg, &world, 0);
    assert_eq!(c0, Vec3::new(0, 0, 0));
}

#[test]
fn bvh_matches_linear_scan() {
    let mut world = Hittablelist::default_new();
    world.add(Object::Sphere(Sphere::new(&Vec3::new(0, 0, 0), S, &white_lambertian())));
    world.add(Object::Sphere(Sphere::new(&Vec3::new(3 * S, 0, 0), S, &white_lambertian())));
    world.add(Object::Sphere(Sphere::new(&Vec3::new(-3 * S, S / 2, 0), S, &white_lambertian())));
    world.add(Object::XZrect(XZrect::new(&white_lambertian(), -5 * S, 5 * S, -5 * S, 5 * S, -2 * S)));
    let tree = Bvhnode::new_from_list(&world, 0, S);
    let node = Object::Bvhnode(tree);
    let rays = [
        Ray::new(&Vec3::new(0, 0, -4 * S), &Vec3::new(0, 0, S), 0),
        Ray::new(&Vec3::new(3 * S, 0, -4 * S), &Vec3::new(0, 0, S), 0),
        Ray::new(&Vec3::new(0, 5 * S, 0), &Vec3::new(0, -S, 0), 0),
        Ray::new(&Vec3::new(0, 9 * S, 9 * S), &Vec3::new(0, 0, S), 0),
        Ray::new(&Vec3::new(-3 * S, 0, -4 * S), &Vec3::new(S / 7, 0, S), 0),
    ];
    for r in rays.iter() {
        let lin = world.hit(r, 0, 100 * S);
        let tre = node.hit(r, 0, 100 * S);
        assert_eq!(lin.is_some(), tre.is_some());
        if let (Some(a), Some(b)) = (lin, tre) {
            assert_eq!(a.t, b.t);
            assert_eq!(a.p, b.p);
        }
    }
}

#[test]
fn perlin_tables_are_permutations() {
    let p = Perlin::default_new();
    for table in [&p.perm_x, &p.perm_y, &p.perm_z] {
        let mut seen = [false; 256];
        assert_eq!(table.len(), 256);
        for &v in table.iter() {
            seen[v as usize] = true;
        }
        assert!(seen.iter().all(|&b| b));
    }
}

#[test]
fn perlin_turbulence_in_range() {
    let p = Perlin::default_new();
    let t = p.turb(&Vec3::new(3 * S / 2, -7 * S / 3, 5 * S), 7);
    assert!(t >= 0 && t <= 4 * S);
}

#[test]
fn random_helpers_in_range() {
    for _ in 0..64 {
        let a = random_int_between(-3, 9);
        assert!((-3..=9).contains(&a));
        let u = random_fx_unit();
        assert!((0..S).contains(&u));
    }
    assert_eq!(random_int_between(5, 5), 5);
}

#[test]
fn solid_color_value() {
    let t = Solidcolor::new_from_color(&Vec3::new(123, 456, 789));
    assert_eq!(t.value(0, 0, &Vec3::new(9, 9, 9)), Vec3::new(123, 456, 789));
}

#[test]
fn calc_color_bytes() {
    let c = calc_color(&Vec3::new(S, 0, 4 * S), 1);
    assert_eq!(c, [255, 0, 255]);
    let quarter = calc_color(&Vec3::new(S / 4, S / 4, S / 4), 1);
    assert_eq!(quarter, [128, 128, 128]);
}

#[test]
fn camera_rays_are_usable() {
    let cam = Camera::new(
        &Vec3::new(0, 0, 26 * S),
        &Vec3::new(0, 0, 0),
        &Vec3::new(0, S, 0),
        40 * S,
        16 * S / 9,
        0,
        10 * S,
        0,
        S,
    );
    let r = cam.get_ray(S / 2, S / 2);
    assert!(r.tm >= 0 && r.tm <= S);
    assert!(r.dir.x.abs() <= 0x800_0000 && r.dir.y.abs() <= 0x800_0000 && r.dir.z.abs() <= 0x800_0000);
    assert_eq!(SCALE, S);
}

#[test]
fn translate_shifts_hits() {
    let sph = Sphere::new(&Vec3::new(0, 0, 0), S, &white_lambertian());
    let moved = Translate::new(Some(Box::new(Object::Sphere(sph))), &Vec3::new(0, 0, 5 * S));
    let obj = Object::Translate(moved);
    let r = Ray::new(&Vec3::new(0, 0, 0), &Vec3::new(0, 0, S), 0);
    let rec = obj.hit(&r, 0, 100 * S).expect("the shifted sphere sits ahead of the ray");
    assert_eq!(rec.t, 4 * S);
    assert_eq!(rec.p, Vec3::new(0, 0, 4 * S));
}

#[test]
fn rotate_quarter_turn_moves_hit() {
    let sph = Sphere::new(&Vec3::new(5 * S, 0, 0), S, &white_lambertian());
    let turned = RotateY::new(Some(Box::new(Object::Sphere(sph))), 90 * S);
    let obj = Object::RotateY(turned);
    let r = Ray::new(&Vec3::new(0, 0, -9 * S), &Vec3::new(0, 0, S), 0);
    let rec = obj.hit(&r, 0, 100 * S).expect("the turned sphere faces the ray");
    assert!(rec.t > 0);
}

#[test]
fn metal_zero_fuzz_is_exact_reflection() {
    let sph = Sphere::new(
        &Vec3::new(0, 0, 0),
        S,
        &Some(Box::new(Material::Metal(Metal::new(&Vec3::new(45875, 39321, 32768), 0)))),
    );
    let r = Ray::new(&Vec3::new(0, 0, -3 * S), &Vec3::new(0, 0, S), 0);
    let rec = sph.hit(&r, 0, 100 * S).expect("the ray points at the mirror sphere");
    let mat = rec.mat_ptr.as_ref().expect("the sphere carries a material");
    let (att, sc) = mat.scatter(&r, &rec).expect("a head-on mirror bounce leaves the surface");
    assert_eq!(att, Vec3::new(45875, 39321, 32768));
    assert_eq!(sc.dir, Vec3::new(0, 0, -S));
}

#[test]
fn dielectric_always_scatters_white() {
    let sph = Sphere::new(
        &Vec3::new(0, 0, 0),
        S,
        &Some(Box::new(Material::Dielectric(Dielectric::new(3 * S / 2)))),
    );
    let r = Ray::new(&Vec3::new(0, 0, -3 * S), &Vec3::new(0, 0, S), 0);
    let rec = sph.hit(&r, 0, 100 * S).expect("the ray points at the glass sphere");
    let mat = rec.mat_ptr.as_ref().expect("the sphere carries a material");
    let (att, _sc) = mat.scatter(&r, &rec).expect("glass always scatters");
    assert_eq!(att, Vec3::new(S, S, S));
}

#[test]
fn checker_picks_even_near_origin() {
    let c1 = Vec3::new(100, 200, 300);
    let c2 = Vec3::new(1, 2, 3);
    let t = Texture::Checkertexture(Checkertexture::new_from_color(&c1, &c2));
    let v = t.value(0, 0, &Vec3::new(S / 10, S / 10, S / 10));
    assert_eq!(v, c1);
}

#[test]
fn image_texture_single_pixel() {
    let t = Imagetexture::new(1, 1, vec![255u8, 0u8, 128u8]);
    let v = t.value(S / 2, S / 2, &Vec3::new(0, 0, 0));
    assert_eq!(v, Vec3::new(65536, 0, 32896));
}

#[test]
fn moving_sphere_center_endpoints() {
    let m = Movingsphere::new(
        &Vec3::new(0, 0, 0),
        &Vec3::new(2 * S, 0, 0),
        0,
        S,
        S / 2,
        &white_lambertian(),
    );
    assert_eq!(m.center(0), Vec3::new(0, 0, 0));
    assert_eq!(m.center(S), Vec3::new(2 * S, 0, 0));
    assert_eq!(m.center(S / 2), Vec3::new(S, 0, 0));
}

#[test]
fn list_bounding_box_folds_all() {
    let mut world = Hittablelist::default_new();
    world.add(Object::Sphere(Sphere::new(&Vec3::new(0, 0, 0), S, &white_lambertian())));
    world.add(Object::Sphere(Sphere::new(&Vec3::new(4 * S, 0, 0), S, &white_lambertian())));
    let b = world.boundingbox(0, S).expect("every object reports a box");
    assert!(b.min().x() <= -S && b.max().x() >= 5 * S);
    assert!(b.min().y() <= -S && b.max().y() >= S);
    let empty = Hittablelist::default_new();
    assert!(empty.boundingbox(0, S).is_none());
}

#[test]
fn triangle_derived_geometry() {
    let t = raytracer::triangle::Triangle::new(
        &[Vec3::new(0, 0, 0), Vec3::new(2 * S, 0, 0), Vec3::new(0, 2 * S, 0)],
        &white_lambertian(),
    );
    assert_eq!(t.cen, Vec3::new(2 * S / 3, 2 * S / 3, 0));
    assert_eq!(t.normal.x, 0);
    assert_eq!(t.normal.y, 0);
    assert!(t.normal.z.abs() >= S - 2 && t.normal.z.abs() <= S);
    assert!(t.area >= 2 * S - 8 && t.area <= 2 * S);
}

#[test]
fn single_object_tree_has_one_child() {
    let mut world = Hittablelist::default_new();
    world.add(Object::Sphere(Sphere::new(&Vec3::new(0, 0, 0), S, &white_lambertian())));
    let tree = Bvhnode::new_from_list(&world, 0, S);
    assert!(tree.left.is_some());
    assert!(tree.right.is_none());
    let node = Object::Bvhnode(tree);
    let r = Ray::new(&Vec3::new(0, 0, -3 * S), &Vec3::new(0, 0, S), 0);
    let rec = node.hit(&r, 0, 100 * S).expect("the lone sphere is ahead of the ray");
    assert_eq!(rec.t, 2 * S);
}

#[test]
fn empty_scene_band_is_background() {
    let world = Hittablelist::default_new();
    let cam = Camera::new(
        &Vec3::new(0, 0, 10 * S),
        &Vec3::new(0, 0, 0),
        &Vec3::new(0, S, 0),
        40 * S,
        16 * S / 9,
        0,
        10 * S,
        0,
        S,
    );
    let bg = Vec3::new(100, 200, 300);
    let band = raytracer::render::render_band(&cam, &world, &bg, 4, 4, 1, 3, 8, 3);
    assert_eq!(band.len(), 8);
    for px in band.iter() {
        assert_eq!(*px, Vec3::new(800, 1600, 2400));
    }
}
