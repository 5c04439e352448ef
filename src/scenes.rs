//! Example scenes: each gives the world to render and the camera to render it with.
use vstd::prelude::*;
use std::sync::Arc;
use crate::bvh::BoundNode;
use crate::camera::Camera;
use crate::hittable::{Hittable, HittableList, RotateY, Translation};
use crate::materials::{Dielectric, DiffuseLight, Lambertian, Material, Metal};
use crate::scalar::{clip, Scalar, SCALE};
use crate::shapes::{parallelepiped, Parallelogram, Planar, Sphere, Triangle};
use crate::textures::{CheckerTexture, Texture};
use crate::vec3::{Color, Point, Vec3};
use crate::volumes::ConstantMedium;

verus! {

/// A world and the camera that views it.
pub struct Scene {
    pub world: HittableList,
    pub camera: Camera,
}

/// Settings of a camera, as a scene file gives them.
pub struct CameraBuilder {
    pub aspect_ratio: Scalar,
    pub image_width: i32,
    pub vfov: Scalar,
    pub look_from: Point,
    pub look_at: Point,
    pub up: Vec3,
    pub aa_samples: i32,
    pub max_depth: i32,
}

impl CameraBuilder {
    pub fn build(&self) -> (r: Camera)
        requires
            crate::camera::basis_ok(self.look_from@, self.look_at@, self.up@),
        ensures
            r.aspect_ratio == self.aspect_ratio,
            r.image_width == self.image_width,
            r.vfov == self.vfov,
            r.look_from == self.look_from,
            r.look_at == self.look_at,
            r.up == self.up,
            r.aa_samples == self.aa_samples,
            r.max_depth == self.max_depth,
    {
        Camera::new(
            self.aspect_ratio,
            self.image_width,
            self.vfov,
            self.look_from,
            self.look_at,
            self.up,
            self.aa_samples,
            self.max_depth,
        )
    }
}

/// The point with whole-number coordinates.
fn whole(x: i64, y: i64, z: i64) -> (r: Vec3)
    ensures
        r@ == (clip(x * SCALE), clip(y * SCALE), clip(z * SCALE)),
{
    Vec3(Scalar::from_int(x), Scalar::from_int(y), Scalar::from_int(z))
}

/// The color with channels in thousandths.
fn rgb(r: i64, g: i64, b: i64) -> (c: Color) {
    Vec3(Scalar::milli(r), Scalar::milli(g), Scalar::milli(b))
}

fn lambertian(albedo: Color) -> (r: Arc<Material>) {
    Arc::new(Material::Lambertian(Lambertian::from(albedo)))
}

fn light(c: Color) -> (r: Arc<Material>) {
    Arc::new(Material::DiffuseLight(DiffuseLight::from(c)))
}

fn quad(q: Vec3, u: Vec3, v: Vec3, material: Arc<Material>) -> (r: Hittable) {
    Hittable::Planar(Planar::Parallelogram(Parallelogram::new(q, (u, v), material)))
}

fn triangle(a: Vec3, b: Vec3, c: Vec3, material: Arc<Material>) -> (r: Hittable) {
    Hittable::Planar(Planar::Triangle(Triangle::new((a, b, c), material)))
}

/// A camera with a square image.
fn square_camera(look_from: Vec3, look_at: Vec3, vfov: i64, width: i32, samples: i32, depth: i32) -> (r: Camera)
    requires
        crate::camera::basis_ok(look_from@, look_at@, (0int, SCALE as int, 0int)),
    ensures
        r.image_width == width,
        r.image_height == crate::camera::height_for(width as int, SCALE as int),
        r.aa_samples == samples,
        r.max_depth == depth,
        r.look_from == look_from,
{
    Camera::new(Scalar::one(), width, Scalar::from_int(vfov), look_from, look_at, whole(0, 1, 0), samples, depth)
}

/// Ground, a diffuse sphere, a glass sphere holding an air bubble, and a metal sphere, under a
/// bounding-volume hierarchy.
pub fn material_spheres() -> (r: Scene)
    ensures
        r.world.objects@.len() == 1,
        *r.world.objects@[0] is Node,
        r.camera.image_width == 400,
        r.camera.image_height == 225,
        r.camera.aa_samples == 20,
        r.camera.max_depth == 20,
{
    let mut world = HittableList::new();
    let material_ground = lambertian(rgb(800, 800, 0));
    let material_center = lambertian(rgb(100, 200, 500));
    let material_left = Arc::new(Material::Dielectric(Dielectric::new(Scalar::milli(1500))));
    let material_bubble = Arc::new(Material::Dielectric(Dielectric::new(Scalar::ratio(10, 15))));
    let material_right = Arc::new(
        Material::Metal(Metal::new(rgb(800, 600, 200), Scalar::one())),
    );
    let half = Scalar::milli(500);
    world.add(Hittable::Sphere(Sphere::new(Vec3(Scalar::zero(), Scalar::milli(-100500), Scalar::from_int(-1)), Scalar::from_int(100), material_ground)));
    world.add(Hittable::Sphere(Sphere::new(whole(0, 0, -1), half, material_center)));
    world.add(Hittable::Sphere(Sphere::new(whole(-1, 0, -1), half, material_left)));
    world.add(Hittable::Sphere(Sphere::new(whole(-1, 0, -1), Scalar::milli(400), material_bubble)));
    world.add(Hittable::Sphere(Sphere::new(whole(1, 0, -1), half, material_right)));
    let world = HittableList::from(Arc::new(Hittable::Node(BoundNode::from_list(world))));
    let camera = Camera::new(
        Scalar::ratio(16, 9),
        400,
        Scalar::from_int(90),
        whole(0, 0, 0),
        whole(0, 0, -1),
        whole(0, 1, 0),
        20,
        20,
    );
    Scene { world, camera }
}

/// Two large spheres sharing one checkered texture.
pub fn checkered_spheres() -> (r: Scene)
    ensures
        r.world.objects@.len() == 2,
        r.camera.image_width == 400,
        r.camera.image_height == 225,
        r.camera.aa_samples == 20,
        r.camera.max_depth == 20,
{
    let mut world = HittableList::new();
    let checker = Arc::new(
        Texture::Checker(CheckerTexture::from(Scalar::milli(320), rgb(200, 300, 100), rgb(900, 900, 900))),
    );
    let ten = Scalar::from_int(10);
    world.add(Hittable::Sphere(Sphere::new(whole(0, -10, 0), ten, Arc::new(Material::Lambertian(Lambertian::new(checker.clone()))))));
    world.add(Hittable::Sphere(Sphere::new(whole(0, 10, 0), ten, Arc::new(Material::Lambertian(Lambertian::new(checker))))));
    let camera = Camera::new(
        Scalar::ratio(16, 9),
        400,
        Scalar::from_int(20),
        whole(13, 2, 3),
        whole(0, 0, 0),
        whole(0, 1, 0),
        20,
        20,
    );
    Scene { world, camera }
}

/// Five colored parallelograms around the origin.
pub fn quads() -> (r: Scene)
    ensures
        r.world.objects@.len() == 5,
        r.camera.image_width == 400,
        r.camera.image_height == 400,
        r.camera.aa_samples == 20,
        r.camera.max_depth == 20,
{
    let mut world = HittableList::new();
    let left_red = lambertian(rgb(1000, 200, 200));
    let back_green = lambertian(rgb(200, 1000, 200));
    let right_blue = lambertian(rgb(200, 200, 1000));
    let top_orange = lambertian(rgb(1000, 500, 0));
    let bottom_teal = lambertian(rgb(200, 800, 800));
    world.add(Hittable::Parallelogram(Parallelogram::new(whole(-3, -2, 5), (whole(0, 0, -4), whole(0, 4, 0)), left_red)));
    world.add(Hittable::Parallelogram(Parallelogram::new(whole(-2, -2, 0), (whole(4, 0, 0), whole(0, 4, 0)), back_green)));
    world.add(Hittable::Parallelogram(Parallelogram::new(whole(3, -2, 1), (whole(0, 0, 4), whole(0, 4, 0)), right_blue)));
    world.add(Hittable::Parallelogram(Parallelogram::new(whole(-2, 3, 1), (whole(4, 0, 0), whole(0, 0, 4)), top_orange)));
    world.add(Hittable::Parallelogram(Parallelogram::new(whole(-2, -3, 5), (whole(4, 0, 0), whole(0, 0, -4)), bottom_teal)));
    let camera = square_camera(whole(0, 0, 9), whole(0, 0, 0), 80, 400, 20, 20);
    Scene { world, camera }
}

/// A parallelogram and four triangles around the origin.
pub fn planars() -> (r: Scene)
    ensures
        r.world.objects@.len() == 5,
        r.camera.image_width == 400,
        r.camera.image_height == 400,
        r.camera.aa_samples == 20,
        r.camera.max_depth == 20,
{
    let mut world = HittableList::new();
    let left_red = lambertian(rgb(1000, 200, 200));
    let back_green = lambertian(rgb(200, 1000, 200));
    let right_blue = lambertian(rgb(200, 200, 1000));
    let top_orange = lambertian(rgb(1000, 500, 0));
    let bottom_teal = lambertian(rgb(200, 800, 800));
    world.add(quad(whole(-2, -2, 0), whole(4, 0, 0), whole(0, 4, 0), back_green));
    world.add(triangle(whole(-3, -2, 1), whole(-3, -2, 5), whole(-3, 2, 1), left_red));
    world.add(triangle(whole(3, -2, 1), whole(3, -2, 5), whole(3, 2, 5), right_blue));
    world.add(triangle(whole(-2, 3, 1), whole(2, 3, 1), whole(0, 3, 5), top_orange));
    world.add(triangle(whole(-2, -3, 1), whole(2, -3, 1), whole(0, -3, 5), bottom_teal));
    let camera = square_camera(whole(0, 0, 9), whole(0, 0, 0), 80, 400, 20, 20);
    Scene { world, camera }
}

/// Ground, a sphere and a rectangular light.
pub fn simple_light() -> (r: Scene)
    ensures
        r.world.objects@.len() == 3,
        r.camera.image_width == 400,
        r.camera.image_height == 225,
        r.camera.aa_samples == 20,
        r.camera.max_depth == 20,
{
    let mut world = HittableList::new();
    let material_ground = lambertian(rgb(800, 800, 0));
    let material_center = lambertian(rgb(100, 200, 500));
    let diffuse_light = light(rgb(4000, 4000, 4000));
    world.add(Hittable::Sphere(Sphere::new(whole(0, -1000, 0), Scalar::from_int(1000), material_ground)));
    world.add(Hittable::Sphere(Sphere::new(whole(0, 2, 0), Scalar::from_int(2), material_center)));
    world.add(quad(whole(3, 1, -2), whole(2, 0, 0), whole(0, 2, 0), diffuse_light));
    let camera = Camera::new(
        Scalar::ratio(16, 9),
        400,
        Scalar::from_int(20),
        whole(26, 3, 6),
        whole(0, 2, 0),
        whole(0, 1, 0),
        20,
        20,
    );
    Scene { world, camera }
}

/// The walls and light of the Cornell box, added to `world`.
fn cornell_walls(world: &mut HittableList, light_level: i64, white: &Arc<Material>)
    requires
        old(world).covers_all(),
    ensures
        final(world).objects@.len() == old(world).objects@.len() + 6,
        final(world).covers_all(),
{
    let red = lambertian(rgb(650, 50, 50));
    let green = lambertian(rgb(120, 450, 150));
    let lamp = light(rgb(light_level, light_level, light_level));
    world.add(quad(whole(555, 0, 0), whole(0, 555, 0), whole(0, 0, 555), green));
    world.add(quad(whole(0, 0, 0), whole(555, 0, 0), whole(0, 0, 555), red));
    world.add(quad(whole(343, 554, 332), whole(-130, 0, 0), whole(0, 0, -105), lamp));
    world.add(quad(whole(0, 0, 0), whole(555, 0, 0), whole(0, 0, 555), white.clone()));
    world.add(quad(whole(555, 555, 555), whole(555, 0, 0), whole(0, 0, 555), white.clone()));
    world.add(quad(whole(0, 0, 555), whole(555, 0, 0), whole(0, 555, 0), white.clone()));
}

/// A box with corners at the origin and `size`, turned by `angle` degrees about `y` and moved
/// by `offset`.
fn turned_box(size: Vec3, angle: i64, offset: Vec3, material: Arc<Material>) -> (r: Arc<Hittable>) {
    let shape = parallelepiped(whole(0, 0, 0), size, material);
    let turned = Arc::new(Hittable::RotateY(RotateY::new(shape, Scalar::from_int(angle))));
    Arc::new(Hittable::Translation(Translation::new(turned, offset)))
}

/// The Cornell box with two turned boxes inside.
pub fn cornell_box() -> (r: Scene)
    ensures
        r.world.objects@.len() == 8,
        r.camera.image_width == 600,
        r.camera.image_height == 600,
        r.camera.aa_samples == 50,
        r.camera.max_depth == 20,
{
    let mut world = HittableList::new();
    let white = lambertian(rgb(730, 730, 730));
    cornell_walls(&mut world, 15000, &white);
    world.add_arc(turned_box(whole(165, 330, 165), 15, whole(265, 0, 295), white.clone()));
    world.add_arc(turned_box(whole(165, 165, 165), -18, whole(130, 0, 65), white));
    let camera = square_camera(whole(278, 278, -800), whole(278, 278, 0), 40, 600, 50, 20);
    Scene { world, camera }
}

/// The Cornell box with the two boxes turned into dark and light smoke.
pub fn cornell_smoke() -> (r: Scene)
    ensures
        r.world.objects@.len() == 8,
        r.camera.image_width == 900,
        r.camera.image_height == 900,
        r.camera.aa_samples == 150,
        r.camera.max_depth == 75,
{
    let mut world = HittableList::new();
    let white = lambertian(rgb(730, 730, 730));
    cornell_walls(&mut world, 20000, &white);
    let box1 = turned_box(whole(165, 330, 165), 15, whole(265, 0, 295), white.clone());
    let box2 = turned_box(whole(165, 165, 165), -18, whole(130, 0, 65), white);
    let density = Scalar::milli(10);
    world.add(Hittable::Medium(ConstantMedium::from_color(box1, density, rgb(0, 0, 0))));
    world.add(Hittable::Medium(ConstantMedium::from_color(box2, density, rgb(1000, 1000, 1000))));
    let camera = square_camera(whole(278, 278, -800), whole(278, 278, 0), 40, 900, 150, 75);
    Scene { world, camera }
}

} // verus!
