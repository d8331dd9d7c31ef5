//! The lit mesh shader program: names of its uniforms, their locations, and which
//! location receives which light of the frame.
use vstd::prelude::*;

use crate::lights::{MAX_DIRECTIONAL_LIGHTS, MAX_POINT_LIGHTS};

verus! {

/// The character of a decimal digit.
pub open spec fn digit_char(d: nat) -> char {
    if d == 0 {
        '0'
    } else if d == 1 {
        '1'
    } else if d == 2 {
        '2'
    } else if d == 3 {
        '3'
    } else if d == 4 {
        '4'
    } else if d == 5 {
        '5'
    } else if d == 6 {
        '6'
    } else if d == 7 {
        '7'
    } else if d == 8 {
        '8'
    } else {
        '9'
    }
}

/// The decimal notation of `n`, without leading zeros.
pub open spec fn decimal(n: nat) -> Seq<char>
    decreases n,
{
    if n < 10 {
        seq![digit_char(n)]
    } else {
        decimal(n / 10).push(digit_char(n % 10))
    }
}

/// The number a string of decimal digits stands for, read most significant digit first
/// (each character counting as its distance from `'0'`).
pub open spec fn digits_value(s: Seq<char>) -> int
    decreases s.len(),
{
    if s.len() == 0 {
        0
    } else {
        digits_value(s.drop_last()) * 10 + (s.last() as int - '0' as int)
    }
}

proof fn lemma_digit_char_value(d: nat)
    requires
        d < 10,
    ensures
        '0' <= digit_char(d) <= '9',
        digit_char(d) as int - '0' as int == d,
{
}

/// The decimal notation of `n` is standard base 10: it is made of the characters `'0'`
/// to `'9'`, reading it back gives `n`, and it starts with `'0'` only for zero itself.
pub proof fn lemma_decimal_reads_back(n: nat)
    ensures
        decimal(n).len() > 0,
        forall|i: int| 0 <= i < decimal(n).len() ==> '0' <= #[trigger] decimal(n)[i] <= '9',
        digits_value(decimal(n)) == n,
        decimal(n)[0] == '0' ==> n == 0,
    decreases n,
{
    lemma_digit_char_value(n % 10);
    if n < 10 {
        assert(decimal(n).drop_last() =~= Seq::<char>::empty());
        assert(digits_value(Seq::<char>::empty()) == 0);
        assert(n % 10 == n);
    } else {
        lemma_decimal_reads_back(n / 10);
        let d = decimal(n);
        assert(d.drop_last() == decimal(n / 10));
        assert(d.last() == digit_char(n % 10));
        assert(digits_value(d) == digits_value(decimal(n / 10)) * 10 + (n % 10));
        assert(n == (n / 10) * 10 + n % 10);
        assert(d[0] == decimal(n / 10)[0]);
        assert forall|i: int| 0 <= i < d.len() implies '0' <= #[trigger] d[i] <= '9' by {
            if i < d.len() - 1 {
                assert(d[i] == decimal(n / 10)[i]);
            }
        }
    }
}

/// Name of element `i` of a uniform array: `base[i]`.
pub open spec fn array_element_name(base: Seq<char>, i: nat) -> Seq<char> {
    base.push('[') + decimal(i) + seq![']']
}

fn digit_str(d: usize) -> (s: &'static str)
    requires
        d < 10,
    ensures
        s@ == seq![digit_char(d as nat)],
        s@.len() == 1 && s@[0] as int - '0' as int == d,
{
    proof {
        reveal_strlit("0");
        reveal_strlit("1");
        reveal_strlit("2");
        reveal_strlit("3");
        reveal_strlit("4");
        reveal_strlit("5");
        reveal_strlit("6");
        reveal_strlit("7");
        reveal_strlit("8");
        reveal_strlit("9");
    }
    if d == 0 {
        "0"
    } else if d == 1 {
        "1"
    } else if d == 2 {
        "2"
    } else if d == 3 {
        "3"
    } else if d == 4 {
        "4"
    } else if d == 5 {
        "5"
    } else if d == 6 {
        "6"
    } else if d == 7 {
        "7"
    } else if d == 8 {
        "8"
    } else {
        "9"
    }
}

/// Appends the decimal notation of `n` to `out`.
pub fn push_decimal(out: &mut String, n: usize)
    ensures
        final(out)@ == old(out)@ + decimal(n as nat),
    decreases n,
{
    if n >= 10 {
        push_decimal(out, n / 10);
    }
    out.append(digit_str(n % 10));
    proof {
        if n >= 10 {
            assert(decimal(n as nat) == decimal((n / 10) as nat).push(digit_char((n % 10) as nat)));
        }
    }
}

/// Names of the elements `base[0]` .. `base[len - 1]` of a `vec3` uniform array, in order.
pub fn uniform_vec3_array(base: &str, len: usize) -> (names: Vec<String>)
    ensures
        names@.len() == len,
        forall|i: int| 0 <= i < len ==> #[trigger] names@[i]@ == array_element_name(base@, i as nat),
{
    let mut names: Vec<String> = Vec::new();
    let mut i: usize = 0;
    while i < len
        invariant
            i <= len,
            names@.len() == i,
            forall|k: int| 0 <= k < i ==> #[trigger] names@[k]@ == array_element_name(base@, k as nat),
        decreases len - i,
    {
        let mut name = String::from_str(base);
        name.append("[");
        push_decimal(&mut name, i);
        name.append("]");
        proof {
            reveal_strlit("[");
            reveal_strlit("]");
            assert(name@ =~= array_element_name(base@, i as nat));
        }
        names.push(name);
        i = i + 1;
    }
    names
}


/// Number of uniforms whose locations a lit mesh program needs.
pub const UNIFORM_COUNT: usize = 45;

/// A linked lit mesh program and the locations of its uniforms.
pub struct ShaderProgram {
    pub id: u32,
    pub mvp_location: i32,
    pub model_location: i32,
    pub normal_mat_location: i32,
    pub mat_rgb_location: i32,
    pub mat_alpha_location: i32,
    pub use_vertex_color_location: i32,
    pub camera_pos_location: i32,
    pub surf_ambient_location: i32,
    pub surf_diffuse_location: i32,
    pub surf_spec_rgb_location: i32,
    pub surf_shininess_location: i32,
    pub dir_count_location: i32,
    pub dir_toward_light_location: [i32; 4],
    pub dir_radiance_location: [i32; 4],
    pub point_count_location: i32,
    pub point_pos_location: [i32; 8],
    pub point_radiance_location: [i32; 8],
    pub point_atten_location: [i32; 8],
}

/// The uniforms of the lit mesh program, in the order in which `from_locations` reads
/// their locations: the scalar uniforms, then the elements of each light array.
pub fn uniform_names() -> (names: Vec<String>)
    ensures
        names@.len() == UNIFORM_COUNT,
        names@[0]@ == "uMVP"@,
        names@[1]@ == "uModel"@,
        names@[2]@ == "uNormalMat"@,
        names@[3]@ == "uMatRgb"@,
        names@[4]@ == "uMatAlpha"@,
        names@[5]@ == "uUseVertexColor"@,
        names@[6]@ == "uCameraPos"@,
        names@[7]@ == "uSurfAmbient"@,
        names@[8]@ == "uSurfDiffuse"@,
        names@[9]@ == "uSurfSpecRgb"@,
        names@[10]@ == "uSurfShininess"@,
        names@[11]@ == "uDirCount"@,
        names@[12]@ == "uPointCount"@,
        forall|i: int| 0 <= i < 4 ==> #[trigger] names@[13 + i]@ == array_element_name("uDirTowardLight"@, i as nat),
        forall|i: int| 0 <= i < 4 ==> #[trigger] names@[17 + i]@ == array_element_name("uDirRadiance"@, i as nat),
        forall|i: int| 0 <= i < 8 ==> #[trigger] names@[21 + i]@ == array_element_name("uPointPos"@, i as nat),
        forall|i: int| 0 <= i < 8 ==> #[trigger] names@[29 + i]@ == array_element_name("uPointRadiance"@, i as nat),
        forall|i: int| 0 <= i < 8 ==> #[trigger] names@[37 + i]@ == array_element_name("uPointAtten"@, i as nat),
{
    let mut names: Vec<String> = Vec::new();
    names.push(String::from_str("uMVP"));
    names.push(String::from_str("uModel"));
    names.push(String::from_str("uNormalMat"));
    names.push(String::from_str("uMatRgb"));
    names.push(String::from_str("uMatAlpha"));
    names.push(String::from_str("uUseVertexColor"));
    names.push(String::from_str("uCameraPos"));
    names.push(String::from_str("uSurfAmbient"));
    names.push(String::from_str("uSurfDiffuse"));
    names.push(String::from_str("uSurfSpecRgb"));
    names.push(String::from_str("uSurfShininess"));
    names.push(String::from_str("uDirCount"));
    names.push(String::from_str("uPointCount"));
    let ghost before = names@;
    let mut part = uniform_vec3_array("uDirTowardLight", MAX_DIRECTIONAL_LIGHTS);
    names.append(&mut part);
    assert(forall|i: int| 0 <= i < before.len() ==> names@[i] == before[i]);
    let ghost before = names@;
    let mut part = uniform_vec3_array("uDirRadiance", MAX_DIRECTIONAL_LIGHTS);
    names.append(&mut part);
    assert(forall|i: int| 0 <= i < before.len() ==> names@[i] == before[i]);
    let ghost before = names@;
    let mut part = uniform_vec3_array("uPointPos", MAX_POINT_LIGHTS);
    names.append(&mut part);
    assert(forall|i: int| 0 <= i < before.len() ==> names@[i] == before[i]);
    let ghost before = names@;
    let mut part = uniform_vec3_array("uPointRadiance", MAX_POINT_LIGHTS);
    names.append(&mut part);
    assert(forall|i: int| 0 <= i < before.len() ==> names@[i] == before[i]);
    let ghost before = names@;
    let mut part = uniform_vec3_array("uPointAtten", MAX_POINT_LIGHTS);
    names.append(&mut part);
    assert(forall|i: int| 0 <= i < before.len() ==> names@[i] == before[i]);
    names
}

impl ShaderProgram {
    /// Builds the program record from its id and the locations of the uniforms listed by
    /// `uniform_names`, in that order.
    pub fn from_locations(id: u32, locations: &Vec<i32>) -> (p: ShaderProgram)
        requires
            locations@.len() == UNIFORM_COUNT,
        ensures
            p.id == id,
            p.mvp_location == locations@[0],
            p.model_location == locations@[1],
            p.normal_mat_location == locations@[2],
            p.mat_rgb_location == locations@[3],
            p.mat_alpha_location == locations@[4],
            p.use_vertex_color_location == locations@[5],
            p.camera_pos_location == locations@[6],
            p.surf_ambient_location == locations@[7],
            p.surf_diffuse_location == locations@[8],
            p.surf_spec_rgb_location == locations@[9],
            p.surf_shininess_location == locations@[10],
            p.dir_count_location == locations@[11],
            p.point_count_location == locations@[12],
            forall|i: int| 0 <= i < 4 ==> #[trigger] p.dir_toward_light_location@[i] == locations@[13 + i],
            forall|i: int| 0 <= i < 4 ==> #[trigger] p.dir_radiance_location@[i] == locations@[17 + i],
            forall|i: int| 0 <= i < 8 ==> #[trigger] p.point_pos_location@[i] == locations@[21 + i],
            forall|i: int| 0 <= i < 8 ==> #[trigger] p.point_radiance_location@[i] == locations@[29 + i],
            forall|i: int| 0 <= i < 8 ==> #[trigger] p.point_atten_location@[i] == locations@[37 + i],
    {
        let mut dir_toward_light_location: [i32; 4] = [0i32; 4];
        let mut i: usize = 0;
        while i < 4
            invariant
                i <= 4,
                locations@.len() == UNIFORM_COUNT,
                forall|k: int| 0 <= k < i ==> #[trigger] dir_toward_light_location@[k] == locations@[13 + k],
            decreases 4 - i,
        {
            dir_toward_light_location[i] = locations[13 + i];
            i = i + 1;
        }
        let mut dir_radiance_location: [i32; 4] = [0i32; 4];
        let mut i: usize = 0;
        while i < 4
            invariant
                i <= 4,
                locations@.len() == UNIFORM_COUNT,
                forall|k: int| 0 <= k < i ==> #[trigger] dir_radiance_location@[k] == locations@[17 + k],
            decreases 4 - i,
        {
            dir_radiance_location[i] = locations[17 + i];
            i = i + 1;
        }
        let mut point_pos_location: [i32; 8] = [0i32; 8];
        let mut i: usize = 0;
        while i < 8
            invariant
                i <= 8,
                locations@.len() == UNIFORM_COUNT,
                forall|k: int| 0 <= k < i ==> #[trigger] point_pos_location@[k] == locations@[21 + k],
            decreases 8 - i,
        {
            point_pos_location[i] = locations[21 + i];
            i = i + 1;
        }
        let mut point_radiance_location: [i32; 8] = [0i32; 8];
        let mut i: usize = 0;
        while i < 8
            invariant
                i <= 8,
                locations@.len() == UNIFORM_COUNT,
                forall|k: int| 0 <= k < i ==> #[trigger] point_radiance_location@[k] == locations@[29 + k],
            decreases 8 - i,
        {
            point_radiance_location[i] = locations[29 + i];
            i = i + 1;
        }
        let mut point_atten_location: [i32; 8] = [0i32; 8];
        let mut i: usize = 0;
        while i < 8
            invariant
                i <= 8,
                locations@.len() == UNIFORM_COUNT,
                forall|k: int| 0 <= k < i ==> #[trigger] point_atten_location@[k] == locations@[37 + k],
            decreases 8 - i,
        {
            point_atten_location[i] = locations[37 + i];
            i = i + 1;
        }
        ShaderProgram {
            id,
            mvp_location: locations[0],
            model_location: locations[1],
            normal_mat_location: locations[2],
            mat_rgb_location: locations[3],
            mat_alpha_location: locations[4],
            use_vertex_color_location: locations[5],
            camera_pos_location: locations[6],
            surf_ambient_location: locations[7],
            surf_diffuse_location: locations[8],
            surf_spec_rgb_location: locations[9],
            surf_shininess_location: locations[10],
            dir_count_location: locations[11],
            point_count_location: locations[12],
            dir_toward_light_location,
            dir_radiance_location,
            point_pos_location,
            point_radiance_location,
            point_atten_location,
        }
    }

    /// The program object.
    pub fn id(&self) -> (r: u32)
        ensures
            r == self.id,
    {
        self.id
    }

    /// Location of the model-view-projection matrix.
    pub fn mvp_location(&self) -> (r: i32)
        ensures
            r == self.mvp_location,
    {
        self.mvp_location
    }
}


/// One element of the directional light arrays and what it receives.
#[derive(Clone, Copy, Debug)]
pub struct DirectionalSlot {
    pub toward_location: i32,
    pub radiance_location: i32,
    /// Index of the frame's directional light uploaded here; `None` uploads the neutral
    /// values (toward `+Y`, zero radiance).
    pub light: Option<usize>,
}

/// One element of the point light arrays and what it receives.
#[derive(Clone, Copy, Debug)]
pub struct PointSlot {
    pub position_location: i32,
    pub radiance_location: i32,
    pub attenuation_location: i32,
    /// Index of the frame's point light uploaded here; `None` uploads the neutral values
    /// (origin, zero radiance, attenuation `(1, 0, 0)`).
    pub light: Option<usize>,
}

/// Every uniform write that uploads the frame's lights.
pub struct FrameLightUploads {
    pub dir_count_location: i32,
    /// Value written to the directional light count.
    pub dir_count: i32,
    /// All elements of the directional arrays, in order.
    pub directional: Vec<DirectionalSlot>,
    pub point_count_location: i32,
    /// Value written to the point light count.
    pub point_count: i32,
    /// All elements of the point arrays, in order.
    pub point: Vec<PointSlot>,
}

/// `min(a, b)` on counts.
pub open spec fn min_count(a: int, b: int) -> int {
    if a < b {
        a
    } else {
        b
    }
}

impl ShaderProgram {
    /// Plans the upload of the frame's lights: the counts are clamped to the shader's array
    /// sizes, element `i` of each array receives light `i` while `i` is below the count and
    /// neutral values beyond it.
    pub fn frame_light_uploads(&self, dir_lights: usize, point_lights: usize) -> (u:
        FrameLightUploads)
        ensures
            u.dir_count_location == self.dir_count_location,
            u.dir_count == min_count(dir_lights as int, MAX_DIRECTIONAL_LIGHTS as int),
            u.directional@.len() == MAX_DIRECTIONAL_LIGHTS,
            forall|i: int|
                0 <= i < MAX_DIRECTIONAL_LIGHTS ==> {
                    &&& (#[trigger] u.directional@[i]).toward_location
                        == self.dir_toward_light_location@[i]
                    &&& u.directional@[i].radiance_location == self.dir_radiance_location@[i]
                    &&& u.directional@[i].light == if i < u.dir_count {
                        Some(i as usize)
                    } else {
                        None
                    }
                },
            u.point_count_location == self.point_count_location,
            u.point_count == min_count(point_lights as int, MAX_POINT_LIGHTS as int),
            u.point@.len() == MAX_POINT_LIGHTS,
            forall|i: int|
                0 <= i < MAX_POINT_LIGHTS ==> {
                    &&& (#[trigger] u.point@[i]).position_location == self.point_pos_location@[i]
                    &&& u.point@[i].radiance_location == self.point_radiance_location@[i]
                    &&& u.point@[i].attenuation_location == self.point_atten_location@[i]
                    &&& u.point@[i].light == if i < u.point_count {
                        Some(i as usize)
                    } else {
                        None
                    }
                },
    {
        let dir_n: usize = if dir_lights < MAX_DIRECTIONAL_LIGHTS {
            dir_lights
        } else {
            MAX_DIRECTIONAL_LIGHTS
        };
        let point_n: usize = if point_lights < MAX_POINT_LIGHTS {
            point_lights
        } else {
            MAX_POINT_LIGHTS
        };
        let mut directional: Vec<DirectionalSlot> = Vec::new();
        let mut i: usize = 0;
        while i < MAX_DIRECTIONAL_LIGHTS
            invariant
                i <= MAX_DIRECTIONAL_LIGHTS,
                dir_n <= MAX_DIRECTIONAL_LIGHTS,
                directional@.len() == i,
                forall|k: int|
                    0 <= k < i ==> {
                        &&& (#[trigger] directional@[k]).toward_location
                            == self.dir_toward_light_location@[k]
                        &&& directional@[k].radiance_location == self.dir_radiance_location@[k]
                        &&& directional@[k].light == if k < dir_n {
                            Some(k as usize)
                        } else {
                            None
                        }
                    },
            decreases MAX_DIRECTIONAL_LIGHTS - i,
        {
            let light = if i < dir_n {
                Some(i)
            } else {
                None
            };
            directional.push(
                DirectionalSlot {
                    toward_location: self.dir_toward_light_location[i],
                    radiance_location: self.dir_radiance_location[i],
                    light,
                },
            );
            i = i + 1;
        }
        let mut point: Vec<PointSlot> = Vec::new();
        let mut i: usize = 0;
        while i < MAX_POINT_LIGHTS
            invariant
                i <= MAX_POINT_LIGHTS,
                point_n <= MAX_POINT_LIGHTS,
                point@.len() == i,
                forall|k: int|
                    0 <= k < i ==> {
                        &&& (#[trigger] point@[k]).position_location == self.point_pos_location@[k]
                        &&& point@[k].radiance_location == self.point_radiance_location@[k]
                        &&& point@[k].attenuation_location == self.point_atten_location@[k]
                        &&& point@[k].light == if k < point_n {
                            Some(k as usize)
                        } else {
                            None
                        }
                    },
            decreases MAX_POINT_LIGHTS - i,
        {
            let light = if i < point_n {
                Some(i)
            } else {
                None
            };
            point.push(
                PointSlot {
                    position_location: self.point_pos_location[i],
                    radiance_location: self.point_radiance_location[i],
                    attenuation_location: self.point_atten_location[i],
                    light,
                },
            );
            i = i + 1;
        }
        FrameLightUploads {
            dir_count_location: self.dir_count_location,
            dir_count: dir_n as i32,
            directional,
            point_count_location: self.point_count_location,
            point_count: point_n as i32,
            point,
        }
    }
}

} // verus!
