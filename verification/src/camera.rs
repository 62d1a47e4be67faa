//! The camera and integrator: viewport derivation from the configuration,
//! jittered per-pixel ray generation with an optional defocus disk, recursive
//! shading against the scene, sample averaging, and quantization into a
//! row-major 8-bit RGB buffer.
//!
//! Every step is pinned by a spec-level twin, so the produced buffer is a
//! pure function of the configuration, the seed and the scene.

use vstd::prelude::*;
use crate::color::{color_bytes, write_color, Color};
use crate::fixed::{add_raw, div_raw, fx, max_raw, mul_raw, sat64, sub_raw, tdiv, Fx};
use crate::helper::{deg_to_rad, deg_to_rad_raw};
use crate::interval::{clamp_raw, Interval};
use crate::ray::{list_hit_spec, HitRecord, HittableList, Ray};
use crate::rng::{rng_next_state, rng_output, unit_from_draw, Rng};
use crate::material::scatter_spec;
use crate::sphere::Sphere;
use crate::trig::{atan2_fx, atan2_raw, asin_fx, asin_raw, cos_fx, cos_raw, sin_fx, sin_raw,
    tan_fx, tan_raw};
use crate::vec3::{
    cross, cross_spec, len_raw, len_sq_raw, random_in_unit_disk, random_in_unit_disk_spec,
    unit_spec, unit_vector, vadd, vdiv, vec_raw, vmul, vneg, vscale, vsub, Point3, Vec3,
    SAMPLE_ATTEMPTS,
};

verus! {

/// The seed a fresh camera starts from; `set_seed` changes it.
pub const DEFAULT_SEED: u64 = 0x243F6A8885A308D3;

/// The camera: declarative configuration (aspect ratio, image width, sample
/// and bounce budgets, field of view, viewpoint, defocus parameters) together
/// with the viewport state derived from it on every rebuild.
#[derive(Clone, Copy, Debug, PartialEq, Eq, Structural)]
pub struct Camera {
    pub aspect_ratio: Fx,
    pub img_width: i32,
    pub img_height: i32,
    pub samples_per_pixel: i32,
    pub max_depth: i32,
    pub pixels_sample_scale: Fx,
    pub center: Point3,
    pub pixel00_loc: Point3,
    pub pixel_delta_u: Vec3,
    pub pixel_delta_v: Vec3,
    pub vfov: Fx,
    pub lookfrom: Point3,
    pub lookat: Point3,
    pub vup: Vec3,
    pub defocus_angle: Fx,
    pub focus_dist: Fx,
    pub u: Vec3,
    pub v: Vec3,
    pub w: Vec3,
    pub defocus_disk_u: Vec3,
    pub defocus_disk_v: Vec3,
    pub seed: u64,
}

/// A fresh camera: the given configuration, a default orientation looking
/// down the negative z axis, and zeroed derived state.
pub open spec fn camera_new_spec(
    aspect_ratio: Fx,
    img_width: i32,
    samples_per_pixel: i32,
    max_depth: i32,
    vfov: Fx,
) -> Camera {
    Camera {
        aspect_ratio,
        img_width,
        img_height: 0,
        samples_per_pixel,
        max_depth,
        pixels_sample_scale: fx(0),
        center: vec_raw(0, 0, 0),
        pixel00_loc: vec_raw(0, 0, 0),
        pixel_delta_u: vec_raw(0, 0, 0),
        pixel_delta_v: vec_raw(0, 0, 0),
        vfov,
        lookfrom: vec_raw(0, 0, 0),
        lookat: vec_raw(0, 0, -65536),
        vup: vec_raw(0, 65536, 0),
        defocus_angle: fx(0),
        focus_dist: fx(0),
        u: vec_raw(0, 0, 0),
        v: vec_raw(0, 0, 0),
        w: vec_raw(0, 0, 0),
        defocus_disk_u: vec_raw(0, 0, 0),
        defocus_disk_v: vec_raw(0, 0, 0),
        seed: DEFAULT_SEED,
    }
}

/// The derived viewport state recomputed from the configuration: the
/// orthonormal basis `u, v, w` (with fixed fallback axes where a defining
/// vector degenerates below the representation's resolution), the viewport
/// spanned from the field of view and the focus distance, the per-pixel
/// delta vectors, the location of pixel (0,0), and the defocus-disk basis.
#[verifier::opaque]
pub open spec fn rebuild_spec(c: Camera) -> Camera {
    let theta = deg_to_rad_raw(c.vfov.raw as int);
    let hh = tan_raw(div_raw(theta, 131072));
    let viewport_height = mul_raw(mul_raw(131072, hh), c.focus_dist.raw as int);
    let wfx = sat64((c.img_width as int) * 65536);
    let hfx = sat64((c.img_height as int) * 65536);
    let ratio = if hfx == 0 {
        0
    } else {
        div_raw(wfx, hfx)
    };
    let viewport_width = mul_raw(viewport_height, ratio);
    let d = vsub(c.lookfrom, c.lookat);
    let w = if len_sq_raw(d) >= 1 {
        unit_spec(d)
    } else {
        vec_raw(0, 0, 65536)
    };
    let cu = cross_spec(c.vup, w);
    let u = if len_sq_raw(cu) >= 1 {
        unit_spec(cu)
    } else {
        vec_raw(65536, 0, 0)
    };
    let v = cross_spec(w, u);
    let viewport_u = vscale(u, viewport_width);
    let viewport_v = vscale(vneg(v), viewport_height);
    let pdu = if wfx == 0 {
        vec_raw(0, 0, 0)
    } else {
        vdiv(viewport_u, wfx)
    };
    let pdv = if hfx == 0 {
        vec_raw(0, 0, 0)
    } else {
        vdiv(viewport_v, hfx)
    };
    let viewport_upper_left = vsub(
        vsub(vsub(c.center, vscale(w, c.focus_dist.raw as int)), vdiv(viewport_u, 131072)),
        vdiv(viewport_v, 131072),
    );
    let pixel00 = vadd(viewport_upper_left, vscale(vadd(pdu, pdv), 32768));
    let defocus_radius = mul_raw(
        c.focus_dist.raw as int,
        tan_raw(deg_to_rad_raw(div_raw(c.defocus_angle.raw as int, 131072))),
    );
    Camera {
        pixel00_loc: pixel00,
        pixel_delta_u: pdu,
        pixel_delta_v: pdv,
        u,
        v,
        w,
        defocus_disk_u: vscale(u, defocus_radius),
        defocus_disk_v: vscale(v, defocus_radius),
        ..c
    }
}

/// The full recomputation before a render: the image height follows from the
/// width and the aspect ratio, the width and height are clamped into
/// `[1, 4096]` (explicit validation of degenerate configurations), the
/// sample budget is clamped to at least one, the sample scale is its
/// reciprocal, the center moves to the viewpoint, and the viewport state is
/// rebuilt.
#[verifier::opaque]
pub open spec fn init_spec(c: Camera) -> Camera {
    let wi = clamp_raw(1, 4096, c.img_width as int);
    let hraw = if c.aspect_ratio.raw == 0 {
        4096int
    } else {
        tdiv(div_raw(sat64(wi * 65536), c.aspect_ratio.raw as int), 65536)
    };
    let hi = clamp_raw(1, 4096, hraw);
    let spp = max_raw(c.samples_per_pixel as int, 1);
    let scale = div_raw(65536, sat64(spp * 65536));
    rebuild_spec(
        Camera {
            img_width: wi as i32,
            img_height: hi as i32,
            samples_per_pixel: spp as i32,
            pixels_sample_scale: fx(scale),
            center: c.lookfrom,
            ..c
        },
    )
}

/// The jitter offset for one sample: a uniform point of
/// `[-0.5, 0.5)^2` at `z == 0`, from two draws.
pub open spec fn sample_square_spec(s: u64) -> (Vec3, u64) {
    let s1 = rng_next_state(s);
    let s2 = rng_next_state(s1);
    (
        vec_raw(
            sub_raw(unit_from_draw(rng_output(s)), 32768),
            sub_raw(unit_from_draw(rng_output(s1)), 32768),
            0,
        ),
        s2,
    )
}

/// A point of the camera's defocus disk.
pub open spec fn defocus_disk_sample_spec(c: Camera, s: u64) -> (Point3, u64) {
    let (p, s1) = random_in_unit_disk_spec(SAMPLE_ATTEMPTS as nat, s);
    (
        vadd(
            vadd(c.center, vscale(c.defocus_disk_u, p.x.raw as int)),
            vscale(c.defocus_disk_v, p.y.raw as int),
        ),
        s1,
    )
}

/// The jittered camera ray for pixel `(x, y)`: aimed at the pixel's sample
/// point, originating at the camera center, or at a defocus-disk point when
/// the defocus angle is positive.
#[verifier::opaque]
pub open spec fn get_ray_spec(c: Camera, x: int, y: int, s: u64) -> (Ray, u64) {
    let (offset, s1) = sample_square_spec(s);
    let pixel_sample = vadd(
        vadd(c.pixel00_loc, vscale(c.pixel_delta_u, add_raw(sat64(x * 65536), offset.x.raw as int))),
        vscale(c.pixel_delta_v, add_raw(sat64(y * 65536), offset.y.raw as int)),
    );
    if c.defocus_angle.raw <= 0 {
        (Ray { origin: c.center, dir: vsub(pixel_sample, c.center) }, s1)
    } else {
        let (orig, s2) = defocus_disk_sample_spec(c, s1);
        (Ray { origin: orig, dir: vsub(pixel_sample, orig) }, s2)
    }
}

/// The recursive shading of a ray: black once the bounce budget is spent;
/// otherwise the nearest hit in `(0.001, +max)` scatters (attenuating the
/// recursive color) or absorbs the ray; a ray that escapes samples the
/// background gradient between white and sky blue by its direction's height.
#[verifier::opaque]
pub open spec fn ray_color_spec(objects: Seq<Sphere>, ray: Ray, depth: int, s: u64) -> (
    Color,
    u64,
)
    decreases depth,
{
    if depth <= 0 {
        (vec_raw(0, 0, 0), s)
    } else {
        match list_hit_spec(objects, ray, 66, i64::MAX as int) {
            Some(rec) => match rec.mat {
                Some(m) => {
                    let (res, s1) = scatter_spec(m, ray, rec, s);
                    match res {
                        Some(ar) => {
                            let (rc, s2) = ray_color_spec(objects, ar.1, depth - 1, s1);
                            (vmul(ar.0, rc), s2)
                        },
                        None => (vec_raw(0, 0, 0), s1),
                    }
                },
                None => (vec_raw(0, 0, 0), s),
            },
            None => {
                let ud = if len_sq_raw(ray.dir) >= 1 {
                    unit_spec(ray.dir)
                } else {
                    vec_raw(0, 0, 0)
                };
                let a = mul_raw(32768, add_raw(ud.y.raw as int, 65536));
                (
                    vadd(
                        vscale(vec_raw(65536, 65536, 65536), sub_raw(65536, a)),
                        vscale(vec_raw(32768, 45875, 65536), a),
                    ),
                    s,
                )
            },
        }
    }
}

/// The sum of the first `n` shaded samples of pixel `(x, y)`.
pub open spec fn sample_sum_spec(
    objects: Seq<Sphere>,
    c: Camera,
    x: int,
    y: int,
    n: nat,
    s: u64,
) -> (Color, u64)
    decreases n,
{
    if n == 0 {
        (vec_raw(0, 0, 0), s)
    } else {
        let (acc, s1) = sample_sum_spec(objects, c, x, y, (n - 1) as nat, s);
        let (ray, s2) = get_ray_spec(c, x, y, s1);
        let (col, s3) = ray_color_spec(objects, ray, c.max_depth as int, s2);
        (vadd(acc, col), s3)
    }
}

/// The three quantized bytes of pixel `(x, y)`: the sample sum scaled by the
/// sample scale, gamma-corrected and clamped.
#[verifier::opaque]
pub open spec fn pixel_bytes_spec(objects: Seq<Sphere>, c: Camera, x: int, y: int, s: u64) -> (
    Seq<u8>,
    u64,
) {
    let (sum, s1) = sample_sum_spec(objects, c, x, y, c.samples_per_pixel as nat, s);
    let col = vscale(sum, c.pixels_sample_scale.raw as int);
    let bytes = color_bytes(col);
    (seq![bytes.0 as u8, bytes.1 as u8, bytes.2 as u8], s1)
}

/// The bytes of the first `k` pixels in row-major order.
pub open spec fn pixels_spec(objects: Seq<Sphere>, c: Camera, k: nat, s: u64) -> (Seq<u8>, u64)
    decreases k,
{
    if k == 0 {
        (Seq::empty(), s)
    } else {
        let (bytes, s1) = pixels_spec(objects, c, (k - 1) as nat, s);
        let x = ((k - 1) as int) % (c.img_width as int);
        let y = ((k - 1) as int) / (c.img_width as int);
        let (pb, s2) = pixel_bytes_spec(objects, c, x, y, s1);
        (bytes + pb, s2)
    }
}

/// The full frame: the camera is recomputed from its configuration and every
/// pixel is integrated in row-major order, starting from the camera's seed.
pub open spec fn render_spec(c0: Camera, objects: Seq<Sphere>) -> Seq<u8> {
    let c = init_spec(c0);
    pixels_spec(objects, c, ((c.img_width as int) * (c.img_height as int)) as nat, c.seed).0
}

/// Each pixel contributes exactly three bytes.
#[verifier::rlimit(100)]
pub proof fn lemma_pixels_len(objects: Seq<Sphere>, c: Camera, k: nat, s: u64)
    ensures
        pixels_spec(objects, c, k, s).0.len() == 3 * k,
    decreases k,
{
    reveal(pixel_bytes_spec);
    if k == 0 {
    } else {
        lemma_pixels_len(objects, c, (k - 1) as nat, s);
    }
}

/// Rendering is deterministic: one configuration, seed and scene give one
/// buffer, so two renders of the same camera over the same scene agree byte
/// for byte.
pub proof fn lemma_render_deterministic(
    c1: Camera,
    c2: Camera,
    objects1: Seq<Sphere>,
    objects2: Seq<Sphere>,
)
    requires
        c1 == c2,
        objects1 == objects2,
    ensures
        render_spec(c1, objects1) == render_spec(c2, objects2),
{
}

/// The camera moved along a unit direction: both the viewpoint and the
/// look-at point translate by `speed` times the direction, preserving the
/// view. A camera whose viewpoint and look-at point coincide has no
/// direction to move along and stays put.
pub open spec fn move_along_spec(c: Camera, dir_from: Vec3, speed: int, negate: bool) -> Camera {
    if len_sq_raw(dir_from) < 1 {
        c
    } else {
        let step0 = vscale(unit_spec(dir_from), speed);
        let step = if negate {
            vneg(step0)
        } else {
            step0
        };
        Camera { lookfrom: vadd(c.lookfrom, step), lookat: vadd(c.lookat, step), ..c }
    }
}

/// The view direction rotated by yaw and pitch deltas: the unit view
/// direction is converted to spherical coordinates, the deltas are applied
/// with the pitch clamped away from the poles, the direction is rebuilt, the
/// look-at point is repositioned at the original distance, and the viewport
/// is rebuilt. A camera whose viewpoint and look-at point coincide has no
/// view direction and stays put.
#[verifier::opaque]
pub open spec fn adjust_view_spec(c: Camera, yaw_delta: int, pitch_delta: int) -> Camera {
    let direction = vsub(c.lookat, c.lookfrom);
    if len_sq_raw(direction) < 1 {
        c
    } else {
        let distance = len_raw(direction);
        let dn = unit_spec(direction);
        let theta = atan2_raw(dn.z.raw as int, dn.x.raw as int);
        let phi = asin_raw(dn.y.raw as int);
        let new_theta = add_raw(theta, yaw_delta);
        let new_phi = clamp_raw(-102878, 102878, add_raw(phi, pitch_delta));
        let dn2 = vec_raw(
            mul_raw(cos_raw(new_theta), cos_raw(new_phi)),
            sin_raw(new_phi),
            mul_raw(sin_raw(new_theta), cos_raw(new_phi)),
        );
        rebuild_spec(Camera { lookat: vadd(c.lookfrom, vscale(dn2, distance)), ..c })
    }
}

impl Camera {
    /// A fresh camera with the given configuration, looking down the
    /// negative z axis from the origin.
    pub fn new(
        aspect_ratio: Fx,
        img_width: i32,
        samples_per_pixel: i32,
        max_depth: i32,
        vfov: Fx,
    ) -> (r: Camera)
        ensures
            r == camera_new_spec(aspect_ratio, img_width, samples_per_pixel, max_depth, vfov),
    {
        Camera {
            aspect_ratio,
            img_width,
            img_height: 0,
            samples_per_pixel,
            max_depth,
            pixels_sample_scale: Fx { raw: 0 },
            center: Vec3::new_empty(),
            pixel00_loc: Vec3::new_empty(),
            pixel_delta_u: Vec3::new_empty(),
            pixel_delta_v: Vec3::new_empty(),
            vfov,
            lookfrom: Vec3::new_empty(),
            lookat: Vec3::new(Fx { raw: 0 }, Fx { raw: 0 }, Fx { raw: -65536 }),
            vup: Vec3::new(Fx { raw: 0 }, Fx { raw: 65536 }, Fx { raw: 0 }),
            defocus_angle: Fx { raw: 0 },
            focus_dist: Fx { raw: 0 },
            u: Vec3::new_empty(),
            v: Vec3::new_empty(),
            w: Vec3::new_empty(),
            defocus_disk_u: Vec3::new_empty(),
            defocus_disk_v: Vec3::new_empty(),
            seed: DEFAULT_SEED,
        }
    }

    /// Replaces the seed the next render will start from.
    pub fn set_seed(&mut self, seed: u64)
        ensures
            *final(self) == (Camera { seed, ..*old(self) }),
    {
        self.seed = seed;
    }

    /// Recomputes the derived viewport state from the configuration.
    fn update_basis_vectors(&mut self)
        ensures
            *final(self) == rebuild_spec(*old(self)),
    {
        proof {
            reveal(rebuild_spec);
        }
        let theta: Fx = deg_to_rad(self.vfov);
        let hh: Fx = tan_fx(theta.div(Fx { raw: 131072 }));
        let viewport_height: Fx = Fx { raw: 131072 }.mul(hh).mul(self.focus_dist);
        let wfx: Fx = Fx::from_int(self.img_width as i64);
        let hfx: Fx = Fx::from_int(self.img_height as i64);
        let ratio: Fx = if hfx.raw == 0 {
            Fx { raw: 0 }
        } else {
            wfx.div(hfx)
        };
        let viewport_width: Fx = viewport_height.mul(ratio);
        let d: Vec3 = self.lookfrom.sub(self.lookat);
        let w: Vec3 = if d.get_len_squared().raw >= 1 {
            unit_vector(&d)
        } else {
            Vec3::new(Fx { raw: 0 }, Fx { raw: 0 }, Fx { raw: 65536 })
        };
        let cu: Vec3 = cross(&self.vup, &w);
        let u: Vec3 = if cu.get_len_squared().raw >= 1 {
            unit_vector(&cu)
        } else {
            Vec3::new(Fx { raw: 65536 }, Fx { raw: 0 }, Fx { raw: 0 })
        };
        let v: Vec3 = cross(&w, &u);
        self.w = w;
        self.u = u;
        self.v = v;
        let viewport_u: Vec3 = u.scale(viewport_width);
        let viewport_v: Vec3 = v.neg().scale(viewport_height);
        self.pixel_delta_u = if wfx.raw == 0 {
            Vec3::new_empty()
        } else {
            viewport_u.div_scalar(wfx)
        };
        self.pixel_delta_v = if hfx.raw == 0 {
            Vec3::new_empty()
        } else {
            viewport_v.div_scalar(hfx)
        };
        let viewport_upper_left: Vec3 = self.center.sub(w.scale(self.focus_dist)).sub(
            viewport_u.div_scalar(Fx { raw: 131072 }),
        ).sub(viewport_v.div_scalar(Fx { raw: 131072 }));
        self.pixel00_loc = viewport_upper_left.add(
            self.pixel_delta_u.add(self.pixel_delta_v).scale(Fx { raw: 32768 }),
        );
        let defocus_radius: Fx = self.focus_dist.mul(
            tan_fx(deg_to_rad(self.defocus_angle.div(Fx { raw: 131072 }))),
        );
        self.defocus_disk_u = u.scale(defocus_radius);
        self.defocus_disk_v = v.scale(defocus_radius);
    }

    /// Recomputes everything derived from the configuration, clamping the
    /// image dimensions into `[1, 4096]` and the sample budget to at least
    /// one.
    fn init(&mut self)
        ensures
            *final(self) == init_spec(*old(self)),
            1 <= final(self).img_width <= 4096,
            1 <= final(self).img_height <= 4096,
            1 <= final(self).samples_per_pixel,
    {
        proof {
            reveal(init_spec);
            reveal(rebuild_spec);
        }
        let wi: i32 = if self.img_width < 1 {
            1
        } else if self.img_width > 4096 {
            4096
        } else {
            self.img_width
        };
        self.img_width = wi;
        let hraw: i64 = if self.aspect_ratio.raw == 0 {
            4096
        } else {
            Fx::from_int(wi as i64).div(self.aspect_ratio).trunc()
        };
        self.img_height = if hraw < 1 {
            1
        } else if hraw > 4096 {
            4096
        } else {
            hraw as i32
        };
        if self.samples_per_pixel < 1 {
            self.samples_per_pixel = 1;
        }
        self.pixels_sample_scale = Fx { raw: 65536 }.div(
            Fx::from_int(self.samples_per_pixel as i64),
        );
        self.center = self.lookfrom;
        self.update_basis_vectors();
    }

    /// The jitter offset for one sample.
    fn sample_square(rng: &mut Rng) -> (r: Vec3)
        ensures
            ({
                let (v, s) = sample_square_spec(old(rng).state);
                r == v && final(rng).state == s
            }),
    {
        let a: Fx = rng.next_unit();
        let b: Fx = rng.next_unit();
        Vec3::new(a.sub(Fx { raw: 32768 }), b.sub(Fx { raw: 32768 }), Fx { raw: 0 })
    }

    /// A point of the camera's defocus disk.
    fn defocus_disk_sample(&self, rng: &mut Rng) -> (r: Point3)
        ensures
            ({
                let (p, s) = defocus_disk_sample_spec(*self, old(rng).state);
                r == p && final(rng).state == s
            }),
    {
        let p: Vec3 = random_in_unit_disk(rng);
        self.center.add(self.defocus_disk_u.scale(p.x)).add(self.defocus_disk_v.scale(p.y))
    }

    /// The jittered camera ray for pixel `(x, y)`.
    fn get_ray(&self, x: i32, y: i32, rng: &mut Rng) -> (r: Ray)
        ensures
            ({
                let (ray, s) = get_ray_spec(*self, x as int, y as int, old(rng).state);
                r == ray && final(rng).state == s
            }),
    {
        proof {
            reveal(get_ray_spec);
        }
        let offset: Vec3 = Camera::sample_square(rng);
        let xf: Fx = Fx::from_int(x as i64);
        let yf: Fx = Fx::from_int(y as i64);
        let pixel_sample: Vec3 = self.pixel00_loc.add(
            self.pixel_delta_u.scale(xf.add(offset.x)),
        ).add(self.pixel_delta_v.scale(yf.add(offset.y)));
        let ray_origin: Point3 = if self.defocus_angle.raw <= 0 {
            self.center
        } else {
            self.defocus_disk_sample(rng)
        };
        let ray_dir: Vec3 = pixel_sample.sub(ray_origin);
        Ray::new(ray_origin, ray_dir)
    }

    /// The recursive shading of a ray against the scene, with `depth`
    /// bounces left.
    fn ray_color(&self, ray: &Ray, world: &HittableList, depth: i32, rng: &mut Rng) -> (r: Color)
        ensures
            ({
                let (col, s) = ray_color_spec(world.objects@, *ray, depth as int, old(rng).state);
                r == col && final(rng).state == s
            }),
        decreases depth,
    {
        proof {
            reveal(ray_color_spec);
        }
        if depth <= 0 {
            return Vec3::new_empty();
        }
        let mut hit_rec: HitRecord = HitRecord::new_empty();
        if world.hit(ray, Interval::new(Fx { raw: 66 }, Fx { raw: i64::MAX }), &mut hit_rec) {
            match hit_rec.mat {
                Some(m) => {
                    match m.scatter(ray, &hit_rec, rng) {
                        Some((attenuation, scattered_ray)) => {
                            let rc: Color = self.ray_color(&scattered_ray, world, depth - 1, rng);
                            return attenuation.mul(rc);
                        },
                        None => {
                            return Vec3::new_empty();
                        },
                    }
                },
                None => {
                    return Vec3::new_empty();
                },
            }
        }
        let dirv: Vec3 = ray.dir();
        let unit_dir: Vec3 = if dirv.get_len_squared().raw >= 1 {
            unit_vector(&dirv)
        } else {
            Vec3::new_empty()
        };
        let a: Fx = Fx { raw: 32768 }.mul(unit_dir.y.add(Fx { raw: 65536 }));
        let white: Color = Vec3::new(Fx { raw: 65536 }, Fx { raw: 65536 }, Fx { raw: 65536 });
        let blue: Color = Vec3::new(Fx { raw: 32768 }, Fx { raw: 45875 }, Fx { raw: 65536 });
        white.scale(Fx { raw: 65536 }.sub(a)).add(blue.scale(a))
    }

    /// Renders the scene into a row-major 8-bit RGB buffer of
    /// `width * height * 3` bytes, recomputing the viewport first.
    #[verifier::loop_isolation(false)]
    #[verifier::rlimit(100)]
    pub fn render(&mut self, world: &HittableList) -> (r: Vec<u8>)
        ensures
            *final(self) == init_spec(*old(self)),
            r@ == render_spec(*old(self), world.objects@),
            r@.len() == 3 * (final(self).img_width as int) * (final(self).img_height as int),
    {
        self.init();
        let ghost cam: Camera = *self;
        let ghost objects: Seq<Sphere> = world.objects@;
        let ghost seed0: u64 = self.seed;
        let w: i32 = self.img_width;
        let h: i32 = self.img_height;
        let mut rng: Rng = Rng::new(self.seed);
        let mut image: Vec<u8> = Vec::new();
        let mut y: i32 = 0;
        while y < h
            invariant
                0 <= y <= h,
                (image@, rng.state) == pixels_spec(objects, cam, (y * w) as nat, seed0),
            decreases h - y,
        {
            let mut x: i32 = 0;
            proof {
                assert(y * w >= 0) by (nonlinear_arith)
                    requires
                        y >= 0,
                        w >= 1,
                ;
                assert((y + 1) * w == y * w + w) by (nonlinear_arith);
                assert(y * w + w <= h * w) by (nonlinear_arith)
                    requires
                        y + 1 <= h,
                        w >= 1,
                ;
            }
            while x < w
                invariant
                    0 <= x <= w,
                    0 <= y < h,
                    y * w + x <= h * w,
                    (image@, rng.state) == pixels_spec(objects, cam, (y * w + x) as nat, seed0),
                decreases w - x,
            {
                let ghost k: int = y * w + x;
                let ghost s_pixel: u64 = rng.state;
                let mut pixel_color: Color = Vec3::new_empty();
                let mut sidx: i32 = 0;
                while sidx < self.samples_per_pixel
                    invariant
                        0 <= sidx <= self.samples_per_pixel,
                        (pixel_color, rng.state) == sample_sum_spec(
                            objects,
                            cam,
                            x as int,
                            y as int,
                            sidx as nat,
                            s_pixel,
                        ),
                    decreases self.samples_per_pixel - sidx,
                {
                    let ray: Ray = self.get_ray(x, y, &mut rng);
                    let col: Color = self.ray_color(&ray, world, self.max_depth, &mut rng);
                    pixel_color = pixel_color.add(col);
                    sidx = sidx + 1;
                }
                let resultant_color: Color = pixel_color.scale(self.pixels_sample_scale);
                let rgb: (u32, u32, u32) = write_color(&resultant_color);
                image.push(rgb.0 as u8);
                image.push(rgb.1 as u8);
                image.push(rgb.2 as u8);
                proof {
                    reveal(pixel_bytes_spec);
                    vstd::arithmetic::div_mod::lemma_fundamental_div_mod_converse(
                        k,
                        w as int,
                        y as int,
                        x as int,
                    );
                    let (prevbytes, s1) = pixels_spec(objects, cam, k as nat, seed0);
                    let (pb, s2) = pixel_bytes_spec(objects, cam, x as int, y as int, s_pixel);
                    assert(image@ =~= prevbytes + pb);
                }
                x = x + 1;
            }
            proof {
                assert((y + 1) * w == y * w + w) by (nonlinear_arith);
            }
            y = y + 1;
        }
        proof {
            assert(h * w == w * h) by (nonlinear_arith);
            lemma_pixels_len(objects, cam, (w * h) as nat, seed0);
            assert(3 * ((w as int) * (h as int)) == 3 * (w as int) * (h as int))
                by (nonlinear_arith);
        }
        image
    }

    /// Rotates the view direction by the given yaw and pitch deltas (the
    /// pitch clamped away from the poles), keeping the viewpoint and the
    /// focus distance, and rebuilds the viewport.
    pub fn adjust_view(&mut self, yaw_delta: Fx, pitch_delta: Fx)
        ensures
            *final(self) == adjust_view_spec(*old(self), yaw_delta.raw as int, pitch_delta.raw as int),
    {
        proof {
            reveal(adjust_view_spec);
        }
        let direction: Vec3 = self.lookat.sub(self.lookfrom);
        if direction.get_len_squared().raw < 1 {
            return;
        }
        let distance: Fx = direction.get_len();
        let dir_normalized: Vec3 = unit_vector(&direction);
        let theta: Fx = atan2_fx(dir_normalized.z, dir_normalized.x);
        let phi: Fx = asin_fx(dir_normalized.y);
        let new_theta: Fx = theta.add(yaw_delta);
        let phi_raw: Fx = phi.add(pitch_delta);
        let new_phi: Fx = if phi_raw.raw < -102878 {
            Fx { raw: -102878 }
        } else if phi_raw.raw > 102878 {
            Fx { raw: 102878 }
        } else {
            phi_raw
        };
        let dn2: Vec3 = Vec3::new(
            cos_fx(new_theta).mul(cos_fx(new_phi)),
            sin_fx(new_phi),
            sin_fx(new_theta).mul(cos_fx(new_phi)),
        );
        self.lookat = self.lookfrom.add(dn2.scale(distance));
        self.update_basis_vectors();
    }

    /// Moves the camera forward along the view direction.
    pub fn move_fwd(&mut self, speed: Fx)
        ensures
            *final(self) == move_along_spec(
                *old(self),
                vsub(old(self).lookat, old(self).lookfrom),
                speed.raw as int,
                false,
            ),
    {
        let d: Vec3 = self.lookat.sub(self.lookfrom);
        if d.get_len_squared().raw < 1 {
            return;
        }
        let direction: Vec3 = unit_vector(&d);
        self.lookfrom = self.lookfrom.add(direction.scale(speed));
        self.lookat = self.lookat.add(direction.scale(speed));
    }

    /// Moves the camera backward along the view direction.
    pub fn move_backward(&mut self, speed: Fx)
        ensures
            *final(self) == move_along_spec(
                *old(self),
                vsub(old(self).lookat, old(self).lookfrom),
                speed.raw as int,
                true,
            ),
    {
        let d: Vec3 = self.lookat.sub(self.lookfrom);
        if d.get_len_squared().raw < 1 {
            return;
        }
        let direction: Vec3 = unit_vector(&d);
        self.lookfrom = self.lookfrom.add(direction.scale(speed).neg());
        self.lookat = self.lookat.add(direction.scale(speed).neg());
    }

    /// Moves the camera along its right axis (the cross product of the view
    /// direction and the basis vector `v`).
    pub fn move_right(&mut self, speed: Fx)
        ensures
            *final(self) == move_along_spec(
                *old(self),
                cross_spec(vsub(old(self).lookat, old(self).lookfrom), old(self).v),
                speed.raw as int,
                false,
            ),
    {
        let cr: Vec3 = cross(&self.lookat.sub(self.lookfrom), &self.v);
        if cr.get_len_squared().raw < 1 {
            return;
        }
        let right: Vec3 = unit_vector(&cr);
        self.lookfrom = self.lookfrom.add(right.scale(speed));
        self.lookat = self.lookat.add(right.scale(speed));
    }

    /// Moves the camera against its right axis.
    pub fn move_left(&mut self, speed: Fx)
        ensures
            *final(self) == move_along_spec(
                *old(self),
                cross_spec(vsub(old(self).lookat, old(self).lookfrom), old(self).v),
                speed.raw as int,
                true,
            ),
    {
        let cr: Vec3 = cross(&self.lookat.sub(self.lookfrom), &self.v);
        if cr.get_len_squared().raw < 1 {
            return;
        }
        let right: Vec3 = unit_vector(&cr);
        self.lookfrom = self.lookfrom.add(right.scale(speed).neg());
        self.lookat = self.lookat.add(right.scale(speed).neg());
    }
}

} // verus!
