use rand::rngs::StdRng;
use rand::SeedableRng;
use raytracer::aabb::AABB;
use raytracer::hittable::HitRecord;
use raytracer::hittable::Hittable;
use raytracer::material::Material;
use raytracer::material::MaterialResult;
use raytracer::ray::Ray;
use raytracer::scalar::Real;
use raytracer::scene::bounce;
use raytracer::scene::Scene;
use raytracer::vec3::Vec3;

fn scalar(x: f32) -> Real {
    Real::from_bits(x.to_bits())
}

fn value(r: Real) -> f32 {
    f32::from_bits(r.to_bits())
}

fn vec3(v: [f32; 3]) -> Vec3 {
    Vec3::new(scalar(v[0]), scalar(v[1]), scalar(v[2]))
}

fn triple(v: Vec3) -> [f32; 3] {
    [value(v.x), value(v.y), value(v.z)]
}

/// What a floor does with a ray.
#[derive(Clone, Copy, Debug, PartialEq)]
enum Coat {
    /// Sends the ray straight on, at the given share of its light.
    Pass(f32),
    /// Sends the ray back up, at the given share of its light.
    Bounce(f32),
    /// Swallows the ray.
    Swallow,
}

impl Material for Coat {
    fn scatter_spec(&self, rng: StdRng, ray: Ray, rec: HitRecord<Coat>) -> (Option<MaterialResult>, StdRng) {
        let mut rng = rng;
        let answer = self.scatter(&mut rng, &ray, &rec);
        (answer, rng)
    }

    fn scatter(&self, _rng: &mut StdRng, ray: &Ray, rec: &HitRecord<Coat>) -> Option<MaterialResult> {
        match *self {
            Coat::Pass(share) => {
                Some(MaterialResult { attenuation: vec3([share; 3]), scattered: Ray { origin: rec.pos, dir: ray.direction() } })
            },
            Coat::Bounce(share) => Some(MaterialResult {
                attenuation: vec3([share; 3]),
                scattered: Ray { origin: rec.pos, dir: ray.direction().neg() },
            }),
            Coat::Swallow => None,
        }
    }
}

/// The plane at height `y`, seen from either side.
struct Floor {
    y: f32,
    coat: Coat,
}

impl Hittable for Floor {
    type Mat = Coat;

    fn hit_spec(&self, ray: Ray, t_min: Real, t_max: Real) -> Option<HitRecord<Coat>> {
        self.hit(&ray, t_min, t_max)
    }

    fn box_spec(&self, t0: Real, t1: Real) -> Option<AABB> {
        self.bounding_box(t0, t1)
    }

    fn hit(&self, ray: &Ray, t_min: Real, t_max: Real) -> Option<HitRecord<Coat>> {
        let o = triple(ray.origin());
        let d = triple(ray.direction());
        let t: f32 = (self.y - o[1]) / d[1];
        if !(t >= value(t_min) && t <= value(t_max)) {
            return None;
        }
        let mut rec = HitRecord {
            pos: vec3([o[0] + d[0] * t, self.y, o[2] + d[2] * t]),
            normal: vec3([0.0, 1.0, 0.0]),
            t: scalar(t),
            front_face: false,
            mat: self.coat,
        };
        rec.set_face_normal(scalar(d[1]), vec3([0.0, 1.0, 0.0]));
        Some(rec)
    }

    fn bounding_box(&self, _t0: Real, _t1: Real) -> Option<AABB> {
        None
    }
}

fn down() -> Ray {
    Ray { origin: vec3([0.0, 10.0, 0.0]), dir: vec3([0.0, -1.0, 0.0]) }
}

fn floors(coats: &[Coat]) -> Scene<Floor> {
    let mut objects: Vec<Floor> = Vec::new();
    for (i, coat) in coats.iter().enumerate() {
        objects.push(Floor { y: 8.0 - 2.0 * (i as f32), coat: *coat });
    }
    Scene::new(objects)
}

/// The colour of the sky in a direction: white below, sky blue above.
fn sky(dir: [f32; 3]) -> [f32; 3] {
    let len: f32 = (dir[0] * dir[0] + dir[1] * dir[1] + dir[2] * dir[2]).sqrt();
    let t: f32 = 0.5 * (dir[1] / len + 1.0);
    [(1.0 - t) * 1.0 + t * 0.5, (1.0 - t) * 1.0 + t * 0.7, (1.0 - t) * 1.0 + t * 1.0]
}

#[test]
fn depth_zero_is_darkness_whatever_the_scene() {
    let mut rng = StdRng::seed_from_u64(1);
    assert!(floors(&[]).raytrace(&mut rng, &down(), 0).is_none());
    assert!(floors(&[Coat::Pass(0.5)]).raytrace(&mut rng, &down(), 0).is_none());
    assert!(floors(&[Coat::Swallow, Coat::Bounce(0.5)]).raytrace(&mut rng, &down(), 0).is_none());
}

#[test]
fn empty_scene_lets_every_ray_escape_as_it_came() {
    let mut rng = StdRng::seed_from_u64(1);
    let scene = floors(&[]);
    for dir in [[0.0f32, 1.0, 0.0], [0.0, -1.0, 0.0], [1.0, 0.0, 0.0], [0.6, 0.0, -0.8]] {
        for depth in [1usize, 2, 16] {
            let r = Ray { origin: vec3([1.0, 2.0, 3.0]), dir: vec3(dir) };
            let path = scene.raytrace(&mut rng, &r, depth).unwrap();
            assert!(path.attenuations.is_empty());
            assert_eq!(triple(path.escaped.origin), [1.0, 2.0, 3.0]);
            assert_eq!(triple(path.escaped.dir), dir);
        }
    }
}

#[test]
fn sky_is_white_straight_down_and_blue_straight_up() {
    let mut rng = StdRng::seed_from_u64(1);
    let scene = floors(&[]);
    let up = Ray { origin: vec3([0.0; 3]), dir: vec3([0.0, 1.0, 0.0]) };
    let path = scene.raytrace(&mut rng, &up, 16).unwrap();
    assert_eq!(sky(triple(path.escaped.dir)), [0.5, 0.7, 1.0]);
    let path = scene.raytrace(&mut rng, &down(), 16).unwrap();
    assert_eq!(sky(triple(path.escaped.dir)), [1.0, 1.0, 1.0]);
}

#[test]
fn every_bounce_adds_its_attenuation_in_order() {
    let mut rng = StdRng::seed_from_u64(1);
    let scene = floors(&[Coat::Pass(0.5), Coat::Pass(0.25), Coat::Pass(0.125)]);
    let path = scene.raytrace(&mut rng, &down(), 16).unwrap();
    let shares: Vec<f32> = path.attenuations.iter().map(|a| value(a.x)).collect();
    assert_eq!(shares, vec![0.5, 0.25, 0.125]);
    assert_eq!(triple(path.escaped.origin), [0.0, 4.0, 0.0]);
    assert_eq!(triple(path.escaped.dir), [0.0, -1.0, 0.0]);
}

#[test]
fn a_walk_out_of_bounces_ends_in_darkness() {
    let mut rng = StdRng::seed_from_u64(1);
    let scene = floors(&[Coat::Pass(0.5), Coat::Pass(0.25), Coat::Pass(0.125)]);
    assert!(scene.raytrace(&mut rng, &down(), 1).is_none());
    assert!(scene.raytrace(&mut rng, &down(), 2).is_none());
    assert!(scene.raytrace(&mut rng, &down(), 3).is_none());
    assert_eq!(scene.raytrace(&mut rng, &down(), 4).unwrap().attenuations.len(), 3);
}

#[test]
fn an_absorbed_ray_ends_in_darkness() {
    let mut rng = StdRng::seed_from_u64(1);
    assert!(floors(&[Coat::Swallow]).raytrace(&mut rng, &down(), 16).is_none());
    assert!(floors(&[Coat::Pass(0.5), Coat::Swallow]).raytrace(&mut rng, &down(), 16).is_none());
}

#[test]
fn two_mirrors_never_let_go() {
    let mut rng = StdRng::seed_from_u64(1);
    let scene = Scene::new(vec![
        Floor { y: 0.0, coat: Coat::Bounce(0.5) },
        Floor { y: 20.0, coat: Coat::Bounce(0.5) },
    ]);
    for depth in [1usize, 2, 5, 50] {
        assert!(scene.raytrace(&mut rng, &down(), depth).is_none());
    }
}

#[test]
fn a_bounce_does_not_hit_the_surface_it_leaves() {
    let mut rng = StdRng::seed_from_u64(1);
    let scene = floors(&[Coat::Bounce(0.5)]);
    let path = scene.raytrace(&mut rng, &down(), 16).unwrap();
    assert_eq!(path.attenuations.len(), 1);
    assert_eq!(triple(path.escaped.origin), [0.0, 8.0, 0.0]);
    assert_eq!(triple(path.escaped.dir), [0.0, 1.0, 0.0]);
}

#[test]
fn a_bounce_adds_the_attenuation_and_hands_on_the_scattered_ray() {
    let mut seen: Vec<Vec3> = vec![vec3([0.5; 3])];
    let on = Ray { origin: vec3([1.0, 2.0, 3.0]), dir: vec3([0.0, 0.0, 1.0]) };
    let next = bounce(&mut seen, Some(MaterialResult { attenuation: vec3([0.25, 0.5, 0.75]), scattered: on })).unwrap();
    assert_eq!(triple(next.origin), [1.0, 2.0, 3.0]);
    assert_eq!(triple(next.dir), [0.0, 0.0, 1.0]);
    assert_eq!(seen.len(), 2);
    assert_eq!(triple(seen[0]), [0.5, 0.5, 0.5]);
    assert_eq!(triple(seen[1]), [0.25, 0.5, 0.75]);
    assert!(bounce(&mut seen, None).is_none());
    assert_eq!(seen.len(), 2);
}

#[test]
fn the_colour_of_a_path_is_the_sky_scaled_by_every_bounce() {
    let mut rng = StdRng::seed_from_u64(1);
    let scene = floors(&[Coat::Bounce(0.5), Coat::Pass(0.25)]);
    let path = scene.raytrace(&mut rng, &down(), 16).unwrap();
    let mut colour = sky(triple(path.escaped.dir));
    for a in path.attenuations.iter().rev() {
        let a = triple(*a);
        colour = [a[0] * colour[0], a[1] * colour[1], a[2] * colour[2]];
    }
    assert_eq!(path.attenuations.len(), 1);
    assert_eq!(colour, [0.25, 0.35, 0.5]);
}
