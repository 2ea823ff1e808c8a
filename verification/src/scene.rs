//! The scene description: materials, boxes, meshes to load, sky box faces and
//! portals. Lengths, colour channels and factors are whole numbers of
//! hundredths, so that a scene can be written down and reasoned about exactly.

use vstd::prelude::*;

verus! {

/// Three quantities in hundredths of a unit: a point, a size or a colour.
#[derive(Clone, Copy, Debug, PartialEq, Eq, Structural)]
pub struct Fixed3 {
    pub x: i64,
    pub y: i64,
    pub z: i64,
}

impl Fixed3 {
    /// The triple `(x, y, z)`.
    pub fn new(x: i64, y: i64, z: i64) -> (v: Fixed3)
        ensures
            v == (Fixed3 { x, y, z }),
    {
        Fixed3 { x, y, z }
    }

    /// Whether some component is above zero.
    pub open spec fn any_positive(&self) -> bool {
        self.x > 0 || self.y > 0 || self.z > 0
    }
}

/// Surface properties shared by the boxes and meshes that name the material.
#[derive(Clone, Copy, Debug)]
pub struct Material {
    pub name: &'static str,
    /// Base colour, alone or multiplied with the texture.
    pub albedo: Fixed3,
    /// Strength of the highlight.
    pub specular: i64,
    pub transparency: i64,
    pub reflectivity: i64,
    /// Index of refraction.
    pub ior: i64,
    /// Light the surface gives off by itself.
    pub emissive: Fixed3,
    /// File of the texture, if the material has one.
    pub texture_path: Option<&'static str>,
    /// Texture repetitions per unit of length.
    pub uv_scale: i64,
    /// Whether the texture moves with time.
    pub animated_uv: bool,
}

impl Material {
    /// Whether the material gives off light.
    pub open spec fn is_emissive(&self) -> bool {
        self.emissive.any_positive()
    }

    /// A material with the given name, colour and texture, and with the
    /// default for everything else: a faint highlight, opaque, not reflecting,
    /// refraction index 1.5, no light of its own, texture scale 1, not moving.
    pub fn new(name: &'static str, albedo: Fixed3, texture_path: Option<&'static str>) -> (m:
        Material)
        ensures
            m == (Material {
                name,
                albedo,
                specular: 4,
                transparency: 0,
                reflectivity: 0,
                ior: 150,
                emissive: Fixed3 { x: 0, y: 0, z: 0 },
                texture_path,
                uv_scale: 100,
                animated_uv: false,
            }),
    {
        Material {
            name,
            albedo,
            specular: 4,
            transparency: 0,
            reflectivity: 0,
            ior: 150,
            emissive: Fixed3 { x: 0, y: 0, z: 0 },
            texture_path,
            uv_scale: 100,
            animated_uv: false,
        }
    }

    /// The same material with texture scale `s`.
    pub fn with_uv_scale(self, s: i64) -> (m: Material)
        ensures
            m == (Material { uv_scale: s, ..self }),
    {
        Material { uv_scale: s, ..self }
    }

    /// The same material with highlight strength `k`.
    pub fn with_specular(self, k: i64) -> (m: Material)
        ensures
            m == (Material { specular: k, ..self }),
    {
        Material { specular: k, ..self }
    }

    /// The same material giving off the light `e`.
    pub fn with_emissive(self, e: Fixed3) -> (m: Material)
        ensures
            m == (Material { emissive: e, ..self }),
    {
        Material { emissive: e, ..self }
    }

    /// The same material with its texture moving or at rest.
    pub fn animated(self, on: bool) -> (m: Material)
        ensures
            m == (Material { animated_uv: on, ..self }),
    {
        Material { animated_uv: on, ..self }
    }

    /// The same material with reflectivity `r`.
    pub fn with_reflection(self, r: i64) -> (m: Material)
        ensures
            m == (Material { reflectivity: r, ..self }),
    {
        Material { reflectivity: r, ..self }
    }

    /// The same material with transparency `t` and refraction index `ior`.
    pub fn with_transparency(self, t: i64, ior: i64) -> (m: Material)
        ensures
            m == (Material { transparency: t, ior, ..self }),
    {
        Material { transparency: t, ior, ..self }
    }
}

/// An axis-aligned box between two corners, with the material it is made of.
#[derive(Clone, Copy, Debug)]
pub struct Voxel {
    pub min: Fixed3,
    pub max: Fixed3,
    pub mat_id: usize,
}

/// Largest grid coordinate whose cell still fits the coordinate type.
pub const GRID_MAX: u64 = 92_233_720_368_547_757;

impl Voxel {
    /// The unit cube at cell `(i, j, k)` of the whole-number grid.
    pub fn from_grid(i: usize, j: usize, k: usize, mat_id: usize) -> (v: Voxel)
        requires
            i as int <= GRID_MAX as int,
            j as int <= GRID_MAX as int,
            k as int <= GRID_MAX as int,
        ensures
            v.mat_id == mat_id,
            v.min == (Fixed3 { x: (100 * i) as i64, y: (100 * j) as i64, z: (100 * k) as i64 }),
            v.max == (Fixed3 {
                x: (100 * i + 100) as i64,
                y: (100 * j + 100) as i64,
                z: (100 * k + 100) as i64,
            }),
    {
        let x0: i64 = 100 * (i as i64);
        let y0: i64 = 100 * (j as i64);
        let z0: i64 = 100 * (k as i64);
        Voxel {
            min: Fixed3 { x: x0, y: y0, z: z0 },
            max: Fixed3 { x: x0 + 100, y: y0 + 100, z: z0 + 100 },
            mat_id,
        }
    }
}

/// The six texture files of a sky box, by the side of the cube they cover.
#[derive(Clone, Copy, Debug)]
pub struct Skybox {
    /// Towards +x.
    pub right: Option<&'static str>,
    /// Towards -x.
    pub left: Option<&'static str>,
    /// Towards +y.
    pub top: Option<&'static str>,
    /// Towards -y.
    pub bottom: Option<&'static str>,
    /// Towards +z.
    pub front: Option<&'static str>,
    /// Towards -z.
    pub back: Option<&'static str>,
}

impl Skybox {
    /// The file of face number `face`, counted right, left, top, bottom,
    /// front, back.
    pub open spec fn face_spec(&self, face: int) -> Option<&'static str> {
        if face == 0 {
            self.right
        } else if face == 1 {
            self.left
        } else if face == 2 {
            self.top
        } else if face == 3 {
            self.bottom
        } else if face == 4 {
            self.front
        } else {
            self.back
        }
    }

    /// The file of face number `face`, counted right, left, top, bottom,
    /// front, back.
    pub fn face(&self, face: usize) -> (p: Option<&'static str>)
        requires
            face < 6,
        ensures
            p == self.face_spec(face as int),
    {
        if face == 0 {
            self.right
        } else if face == 1 {
            self.left
        } else if face == 2 {
            self.top
        } else if face == 3 {
            self.bottom
        } else if face == 4 {
            self.front
        } else {
            self.back
        }
    }
}

impl Default for Skybox {
    /// A sky box without any face.
    fn default() -> (s: Skybox)
        ensures
            forall|face: int| s.face_spec(face).is_none(),
    {
        Skybox { right: None, left: None, top: None, bottom: None, front: None, back: None }
    }
}

/// A box that sends what enters it to another place, turned about the
/// vertical axis.
#[derive(Clone, Copy, Debug)]
pub struct Portal {
    pub min: Fixed3,
    pub max: Fixed3,
    /// Where what enters comes out.
    pub to_pos: Fixed3,
    /// Turn about the vertical axis, in hundredths of a degree.
    pub rot_y_deg: i64,
}

/// A triangle mesh to be read from a file, scaled, moved and given a material.
#[derive(Clone, Copy, Debug)]
pub struct MeshInstance {
    pub path: &'static str,
    pub mat_id: usize,
    pub scale: i64,
    pub translate: Fixed3,
}

/// A point light derived from a box that gives off light.
#[derive(Clone, Copy, Debug, PartialEq, Eq, Structural)]
pub struct Light {
    /// The box the light stands for.
    pub voxel: usize,
    /// Twice the centre of the box: the sum of its corners, which is whole
    /// where the centre may not be.
    pub twice_center: Fixed3,
    pub color: Fixed3,
}

/// Everything that is rendered.
#[derive(Clone, Debug)]
pub struct Scene {
    pub materials: Vec<Material>,
    pub voxels: Vec<Voxel>,
    pub meshes: Vec<MeshInstance>,
    pub skybox: Skybox,
    pub portals: Vec<Portal>,
}

/// Largest coordinate a box may have for the sum of two corners to fit.
pub const COORD_MAX: i64 = 0x3fff_ffff_ffff_ffff;

/// Whether each component lies within `COORD_MAX` of zero.
pub open spec fn coord_ok(p: Fixed3) -> bool {
    &&& -COORD_MAX <= p.x <= COORD_MAX
    &&& -COORD_MAX <= p.y <= COORD_MAX
    &&& -COORD_MAX <= p.z <= COORD_MAX
}

/// Whether the box has a size along every axis: its first corner lies below
/// its second.
pub open spec fn proper(v: Voxel) -> bool {
    v.min.x < v.max.x && v.min.y < v.max.y && v.min.z < v.max.z
}

/// The light that box `i` of the scene stands for.
pub open spec fn light_of(materials: Seq<Material>, voxels: Seq<Voxel>, i: int) -> Light {
    Light {
        voxel: i as usize,
        twice_center: Fixed3 {
            x: (voxels[i].min.x + voxels[i].max.x) as i64,
            y: (voxels[i].min.y + voxels[i].max.y) as i64,
            z: (voxels[i].min.z + voxels[i].max.z) as i64,
        },
        color: materials[voxels[i].mat_id as int].emissive,
    }
}

/// The lights of the first `n` boxes, in the order of the boxes: one for each
/// box whose material gives off light.
pub open spec fn lights_of(materials: Seq<Material>, voxels: Seq<Voxel>, n: nat) -> Seq<Light>
    decreases n,
{
    if n == 0 {
        Seq::empty()
    } else if materials[voxels[n - 1].mat_id as int].is_emissive() {
        lights_of(materials, voxels, (n - 1) as nat).push(light_of(materials, voxels, n - 1))
    } else {
        lights_of(materials, voxels, (n - 1) as nat)
    }
}

impl Scene {
    /// Every box and every mesh names a material of the scene, and the
    /// corners of the boxes are within `COORD_MAX`.
    pub open spec fn wf(&self) -> bool {
        &&& forall|i: int|
            0 <= i < self.voxels@.len() ==> (#[trigger] self.voxels@[i]).mat_id
                < self.materials@.len()
        &&& forall|i: int|
            0 <= i < self.voxels@.len() ==> coord_ok((#[trigger] self.voxels@[i]).min) && coord_ok(
                self.voxels@[i].max,
            )
        &&& forall|i: int|
            0 <= i < self.meshes@.len() ==> (#[trigger] self.meshes@[i]).mat_id
                < self.materials@.len()
    }

    /// Every box has a size along every axis.
    pub open spec fn boxes_proper(&self) -> bool {
        forall|i: int| 0 <= i < self.voxels@.len() ==> proper(#[trigger] self.voxels@[i])
    }

    /// A scene with nothing in it.
    pub fn new() -> (s: Scene)
        ensures
            s.materials@.len() == 0,
            s.voxels@.len() == 0,
            s.meshes@.len() == 0,
            s.portals@.len() == 0,
            forall|face: int| s.skybox.face_spec(face).is_none(),
            s.wf(),
    {
        Scene {
            materials: Vec::new(),
            voxels: Vec::new(),
            meshes: Vec::new(),
            skybox: Skybox { right: None, left: None, top: None, bottom: None, front: None, back: None },
            portals: Vec::new(),
        }
    }

    /// A scene with nothing in it.
    pub fn new_empty() -> (s: Scene)
        ensures
            s.materials@.len() == 0,
            s.voxels@.len() == 0,
            s.meshes@.len() == 0,
            s.portals@.len() == 0,
            forall|face: int| s.skybox.face_spec(face).is_none(),
            s.wf(),
    {
        Scene::new()
    }

    /// Whether every box and every mesh names a material of the scene and the
    /// corners of the boxes are within `COORD_MAX`.
    pub fn is_valid(&self) -> (ok: bool)
        ensures
            ok == self.wf(),
    {
        let nm: usize = self.materials.len();
        let mut i: usize = 0;
        while i < self.voxels.len()
            invariant
                nm == self.materials@.len(),
                i <= self.voxels@.len(),
                forall|k: int|
                    0 <= k < i ==> (#[trigger] self.voxels@[k]).mat_id < nm && coord_ok(
                        self.voxels@[k].min,
                    ) && coord_ok(self.voxels@[k].max),
            decreases self.voxels@.len() - i,
        {
            let v: Voxel = self.voxels[i];
            if v.mat_id >= nm || !fits(v.min) || !fits(v.max) {
                return false;
            }
            i += 1;
        }
        let mut j: usize = 0;
        while j < self.meshes.len()
            invariant
                nm == self.materials@.len(),
                j <= self.meshes@.len(),
                forall|k: int| 0 <= k < j ==> (#[trigger] self.meshes@[k]).mat_id < nm,
            decreases self.meshes@.len() - j,
        {
            if self.meshes[j].mat_id >= nm {
                return false;
            }
            j += 1;
        }
        true
    }

    /// The point lights of the scene: one for each box whose material gives
    /// off light, in the order of the boxes.
    pub fn lights(&self) -> (out: Vec<Light>)
        requires
            self.wf(),
        ensures
            out@ == lights_of(self.materials@, self.voxels@, self.voxels@.len()),
    {
        let mut out: Vec<Light> = Vec::new();
        let mut i: usize = 0;
        while i < self.voxels.len()
            invariant
                self.wf(),
                i <= self.voxels@.len(),
                out@ == lights_of(self.materials@, self.voxels@, i as nat),
            decreases self.voxels@.len() - i,
        {
            let v: Voxel = self.voxels[i];
            let m: Material = self.materials[v.mat_id];
            if m.emissive.x > 0 || m.emissive.y > 0 || m.emissive.z > 0 {
                out.push(
                    Light {
                        voxel: i,
                        twice_center: Fixed3 {
                            x: v.min.x + v.max.x,
                            y: v.min.y + v.max.y,
                            z: v.min.z + v.max.z,
                        },
                        color: m.emissive,
                    },
                );
            }
            i += 1;
        }
        out
    }
}

/// Whether each component lies within `COORD_MAX` of zero.
fn fits(p: Fixed3) -> (ok: bool)
    ensures
        ok == coord_ok(p),
{
    -COORD_MAX <= p.x && p.x <= COORD_MAX && -COORD_MAX <= p.y && p.y <= COORD_MAX && -COORD_MAX
        <= p.z && p.z <= COORD_MAX
}

/// Appends a box to the scene; nothing else changes.
pub fn add_box(scene: &mut Scene, min: Fixed3, max: Fixed3, mat_id: usize)
    ensures
        final(scene).voxels@ == old(scene).voxels@.push(Voxel { min, max, mat_id }),
        final(scene).materials@ == old(scene).materials@,
        final(scene).meshes@ == old(scene).meshes@,
        final(scene).portals@ == old(scene).portals@,
        final(scene).skybox == old(scene).skybox,
        old(scene).wf() && mat_id < old(scene).materials@.len() && coord_ok(min) && coord_ok(max)
            ==> final(scene).wf(),
        old(scene).boxes_proper() && proper(Voxel { min, max, mat_id })
            ==> final(scene).boxes_proper(),
{
    scene.voxels.push(Voxel { min, max, mat_id });
}

/// Number of materials of the house scene.
pub const HOUSE_MATERIALS: usize = 11;

/// Number of boxes of the house scene.
pub const HOUSE_VOXELS: usize = 33;

/// The materials of the house scene, in the order of their numbers.
pub fn house_materials() -> (m: Vec<Material>)
    ensures
        m@.len() == HOUSE_MATERIALS,
        forall|i: int| 0 <= i < m@.len() ==> ((#[trigger] m@[i]).is_emissive() <==> (i == 8 || i == 10)),
        forall|i: int| 0 <= i < m@.len() ==> ((#[trigger] m@[i]).texture_path.is_none() <==> (i == 8 || i == 10)),
{
    let mut m: Vec<Material> = Vec::new();
    m.push(
        Material::new("grass", Fixed3::new(95, 98, 95), Some("assets/textures/grass.jpeg")).with_uv_scale(800).with_specular(3),
    );
    m.push(
        Material::new("dirt", Fixed3::new(55, 44, 36), Some("assets/textures/dirt.jpeg")).with_uv_scale(400).with_specular(2),
    );
    m.push(
        Material::new("stone", Fixed3::new(72, 72, 74), Some("assets/textures/stone.jpeg")).with_uv_scale(300).with_specular(6),
    );
    m.push(
        Material::new("planks", Fixed3::new(85, 70, 52), Some("assets/textures/planks.jpeg")).with_uv_scale(250).with_specular(5),
    );
    m.push(
        Material::new("dark_wood", Fixed3::new(35, 25, 18), Some("assets/textures/planks.jpeg")).with_uv_scale(250).with_specular(4),
    );
    m.push(
        Material::new("roof", Fixed3::new(95, 60, 55), Some("assets/textures/roof.jpeg")).with_uv_scale(200).with_specular(4),
    );
    m.push(
        Material::new("glass", Fixed3::new(95, 97, 100), Some("assets/textures/glass.jpeg")).with_uv_scale(100).with_specular(60).with_reflection(25),
    );
    m.push(
        Material::new("water", Fixed3::new(25, 45, 95), Some("assets/textures/water.png")).with_uv_scale(600).animated(true).with_specular(12),
    );
    m.push(
        Material::new("torch", Fixed3::new(100, 85, 45), None).with_emissive(Fixed3::new(400, 260, 120)),
    );
    m.push(
        Material::new("tree_leaves", Fixed3::new(65, 85, 60), Some("assets/textures/tree.jpeg")).with_uv_scale(200).with_specular(2),
    );
    m.push(
        Material::new("sun", Fixed3::new(100, 95, 85), None).with_emissive(Fixed3::new(2000, 1800, 1000)),
    );
    m
}

/// The reference scene: a small house on a lawn with torches, a lamp post, a
/// pond, a tree and a far box that stands for the sun, two portals and one
/// mesh to load.
pub fn build_minecraft_house_scene() -> (scene: Scene)
    ensures
        scene.wf(),
        scene.boxes_proper(),
        scene.materials@.len() == HOUSE_MATERIALS,
        scene.voxels@.len() == HOUSE_VOXELS,
        scene.meshes@.len() == 1,
        scene.portals@.len() == 2,
        forall|face: int| scene.skybox.face_spec(face).is_none(),
        forall|i: int|
            0 <= i < scene.materials@.len() ==> ((#[trigger] scene.materials@[i]).is_emissive() <==> (i
                == 8 || i == 10)),
{
    let mut scene: Scene = Scene::new();
    scene.materials = house_materials();

    let x0: i64 = 300;
    let x1: i64 = 1300;
    let z0: i64 = 300;
    let z1: i64 = 1300;
    let y0: i64 = 100;
    let y1: i64 = 600;
    let t: i64 = 25;
    let door_x0: i64 = 740;
    let door_x1: i64 = 860;
    let door_h: i64 = 220;
    let band_h: i64 = 70;
    let y_top: i64 = y1 + 6;

    // The ground: earth with grass on it.
    add_box(&mut scene, Fixed3::new(-500, 0, -500), Fixed3::new(2000, 80, 2000), 1);
    add_box(&mut scene, Fixed3::new(-500, 80, -500), Fixed3::new(2000, 100, 2000), 0);

    // The walls of the house, with a window in the first and a door in the second.
    add_box(&mut scene, Fixed3::new(x0, y0, z0), Fixed3::new(x1, y1, z0 + t), 3);
    add_box(&mut scene, Fixed3::new(650, 200, z0), Fixed3::new(950, 400, z0 + t), 6);
    add_box(&mut scene, Fixed3::new(x0, y0, z1 - t), Fixed3::new(door_x0, y1, z1), 3);
    add_box(&mut scene, Fixed3::new(door_x1, y0, z1 - t), Fixed3::new(x1, y1, z1), 3);
    add_box(&mut scene, Fixed3::new(door_x0, y0 + door_h, z1 - t), Fixed3::new(door_x1, y1, z1), 3);
    add_box(&mut scene, Fixed3::new(x0, y0, z0), Fixed3::new(x0 + t, y1, z1), 3);
    add_box(&mut scene, Fixed3::new(x1 - t, y0, z0), Fixed3::new(x1, y1, z1), 3);

    // A band of dark wood round the walls.
    add_box(&mut scene, Fixed3::new(x0, y0 + 220, z0), Fixed3::new(x1, y0 + 220 + band_h, z0 + t), 4);
    add_box(&mut scene, Fixed3::new(x0, y0 + 220, z1 - t), Fixed3::new(x1, y0 + 220 + band_h, z1), 4);
    add_box(&mut scene, Fixed3::new(x0, y0 + 220, z0), Fixed3::new(x0 + t, y0 + 220 + band_h, z1), 4);
    add_box(&mut scene, Fixed3::new(x1 - t, y0 + 220, z0), Fixed3::new(x1, y0 + 220 + band_h, z1), 4);

    // Windows.
    add_box(&mut scene, Fixed3::new(620, 200, z1 - t), Fixed3::new(720, 350, z1), 6);
    add_box(&mut scene, Fixed3::new(880, 200, z1 - t), Fixed3::new(980, 350, z1), 6);
    add_box(&mut scene, Fixed3::new(900, 380, z1 - t), Fixed3::new(980, 500, z1), 6);
    add_box(&mut scene, Fixed3::new(x0, 200, 700), Fixed3::new(x0 + t, 350, 900), 6);
    add_box(&mut scene, Fixed3::new(x1 - t, 200, 700), Fixed3::new(x1, 350, 900), 6);

    // The roof, in four steps.
    add_box(&mut scene, Fixed3::new(250, y_top, 250), Fixed3::new(1350, y_top + 60, 1350), 5);
    add_box(&mut scene, Fixed3::new(350, y_top + 60, 350), Fixed3::new(1250, y_top + 120, 1250), 5);
    add_box(&mut scene, Fixed3::new(450, y_top + 120, 450), Fixed3::new(1150, y_top + 180, 1150), 5);
    add_box(&mut scene, Fixed3::new(550, y_top + 180, 550), Fixed3::new(1050, y_top + 260, 1050), 5);

    // The door.
    add_box(&mut scene, Fixed3::new(door_x0 + 5, y0, z1 - t + 2), Fixed3::new(door_x1 - 5, y0 + door_h, z1 - 2), 4);

    // Torches beside the door.
    add_box(&mut scene, Fixed3::new(600, 320, z1 - 15), Fixed3::new(620, 360, z1), 8);
    add_box(&mut scene, Fixed3::new(980, 320, z1 - 15), Fixed3::new(1000, 360, z1), 8);

    // A lamp post.
    add_box(&mut scene, Fixed3::new(700, 100, z1 + 60), Fixed3::new(730, 240, z1 + 90), 4);
    add_box(&mut scene, Fixed3::new(690, 240, z1 + 50), Fixed3::new(740, 290, z1 + 100), 8);

    // A pond.
    add_box(&mut scene, Fixed3::new(100, 100, 1400), Fixed3::new(450, 120, 1700), 7);

    // A tree.
    add_box(&mut scene, Fixed3::new(1580, 100, 820), Fixed3::new(1620, 550, 860), 4);
    add_box(&mut scene, Fixed3::new(1480, 550, 720), Fixed3::new(1720, 750, 960), 9);
    add_box(&mut scene, Fixed3::new(1530, 750, 770), Fixed3::new(1670, 890, 910), 9);
    add_box(&mut scene, Fixed3::new(1560, 890, 800), Fixed3::new(1640, 970, 880), 9);

    // The sun.
    add_box(&mut scene, Fixed3::new(3000, 2500, 500), Fixed3::new(3350, 2850, 850), 10);

    scene.portals.push(
        Portal {
            min: Fixed3::new(300, 100, 1200),
            max: Fixed3::new(320, 360, 1260),
            to_pos: Fixed3::new(1280, 200, 340),
            rot_y_deg: 18000,
        },
    );
    scene.portals.push(
        Portal {
            min: Fixed3::new(1280, 100, 300),
            max: Fixed3::new(1300, 360, 360),
            to_pos: Fixed3::new(310, 200, 1230),
            rot_y_deg: 18000,
        },
    );
    scene.meshes.push(
        MeshInstance {
            path: "assets/models/bunny.obj",
            mat_id: 2,
            scale: 60,
            translate: Fixed3::new(1500, 100, 1000),
        },
    );
    scene
}

} // verus!
