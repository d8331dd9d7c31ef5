use opengl_guap::shader::{push_decimal, uniform_names, uniform_vec3_array, ShaderProgram, UNIFORM_COUNT};

#[test]
fn decimal_notation() {
    for (n, text) in [(0usize, "0"), (7, "7"), (10, "10"), (1234, "1234"), (90210, "90210")] {
        let mut s = String::from("x=");
        push_decimal(&mut s, n);
        assert_eq!(s, format!("x={text}"));
    }
}

#[test]
fn vec3_array_element_names() {
    let names = uniform_vec3_array("uPointPos", 3);
    assert_eq!(names, vec!["uPointPos[0]", "uPointPos[1]", "uPointPos[2]"]);
    assert!(uniform_vec3_array("uDirRadiance", 0).is_empty());
    let many = uniform_vec3_array("a", 12);
    assert_eq!(many[11], "a[11]");
}

#[test]
fn all_uniform_names_in_order() {
    let names = uniform_names();
    assert_eq!(names.len(), UNIFORM_COUNT);
    assert_eq!(names[0], "uMVP");
    assert_eq!(names[6], "uCameraPos");
    assert_eq!(names[11], "uDirCount");
    assert_eq!(names[12], "uPointCount");
    assert_eq!(names[13], "uDirTowardLight[0]");
    assert_eq!(names[17], "uDirRadiance[0]");
    assert_eq!(names[21], "uPointPos[0]");
    assert_eq!(names[29], "uPointRadiance[0]");
    assert_eq!(names[44], "uPointAtten[7]");
}

fn program() -> ShaderProgram {
    let locations: Vec<i32> = (0..UNIFORM_COUNT as i32).map(|i| 100 + i).collect();
    ShaderProgram::from_locations(3, &locations)
}

#[test]
fn locations_follow_names() {
    let p = program();
    assert_eq!(p.id(), 3);
    assert_eq!(p.mvp_location(), 100);
    assert_eq!(p.model_location, 101);
    assert_eq!(p.dir_count_location, 111);
    assert_eq!(p.point_count_location, 112);
    assert_eq!(p.dir_toward_light_location, [113, 114, 115, 116]);
    assert_eq!(p.dir_radiance_location, [117, 118, 119, 120]);
    assert_eq!(p.point_pos_location[0], 121);
    assert_eq!(p.point_radiance_location[7], 136);
    assert_eq!(p.point_atten_location[7], 144);
}

#[test]
fn frame_lights_fill_used_slots_and_neutral_rest() {
    let p = program();
    let u = p.frame_light_uploads(2, 20);
    assert_eq!(u.dir_count, 2);
    assert_eq!(u.dir_count_location, 111);
    assert_eq!(u.directional.len(), 4);
    assert_eq!(u.directional[1].light, Some(1));
    assert_eq!(u.directional[2].light, None);
    assert_eq!(u.directional[3].toward_location, 116);
    assert_eq!(u.point_count, 8);
    assert_eq!(u.point.len(), 8);
    assert_eq!(u.point[7].light, Some(7));
    assert_eq!(u.point[7].attenuation_location, 144);
    let none = p.frame_light_uploads(0, 0);
    assert_eq!(none.dir_count, 0);
    assert!(none.point.iter().all(|s| s.light.is_none()));
}
