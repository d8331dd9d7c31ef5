use opengl_guap::lights::{collect_lights, LightCategory, LightSource};

fn dir() -> LightSource {
    LightSource { category: LightCategory::Directional, has_position: false }
}

fn point(has_position: bool) -> LightSource {
    LightSource { category: LightCategory::Point, has_position }
}

#[test]
fn at_most_four_directional_in_order() {
    let lights = vec![dir(), point(true), dir(), dir(), dir(), dir(), dir()];
    let sel = collect_lights(&lights);
    assert_eq!(sel.directional, vec![0, 2, 3, 4]);
    assert_eq!(sel.point, vec![1]);
}

#[test]
fn point_lights_need_a_position() {
    let lights = vec![point(false), point(true), point(false), point(true)];
    let sel = collect_lights(&lights);
    assert_eq!(sel.point, vec![1, 3]);
    assert!(sel.directional.is_empty());
}

#[test]
fn at_most_eight_point_lights() {
    let lights: Vec<LightSource> = (0..12).map(|_| point(true)).collect();
    let sel = collect_lights(&lights);
    assert_eq!(sel.point, vec![0, 1, 2, 3, 4, 5, 6, 7]);
}

#[test]
fn no_lights() {
    let sel = collect_lights(&Vec::new());
    assert!(sel.directional.is_empty() && sel.point.is_empty());
}
