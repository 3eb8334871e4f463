use ascii_render::color::Color;
use ascii_render::controls::{read_controls, Controls, Key};
use ascii_render::framebuffer::TerminalFrameBuffer;
use ascii_render::prefab::{Prefab, PrefabList};
use ascii_render::sampling::{blit_rgba, source_pixel_cell};
use ascii_render::object::objects_with_tags;

#[test]
fn source_pixels_map_to_cells() {
    // a 4x2 image on an 8x2 terminal
    assert_eq!(source_pixel_cell(0, 4, 2, 8, 2), (0, 2));
    assert_eq!(source_pixel_cell(5, 4, 2, 8, 2), (0, 1));
    assert_eq!(source_pixel_cell(6, 4, 2, 8, 2), (2, 1));
    assert_eq!(source_pixel_cell(7, 4, 2, 8, 2), (4, 1));
}

#[test]
fn left_quarter_is_clamped_to_the_first_column() {
    // columns scale to 0, 25, 50, 75; the quarter shift is 25
    assert_eq!(source_pixel_cell(0, 4, 1, 100, 10).0, 0);
    assert_eq!(source_pixel_cell(1, 4, 1, 100, 10).0, 0);
    assert_eq!(source_pixel_cell(2, 4, 1, 100, 10).0, 25);
    assert_eq!(source_pixel_cell(3, 4, 1, 100, 10).0, 50);
}

#[test]
fn blit_writes_the_pixels_that_land_on_the_grid() {
    let mut fb = TerminalFrameBuffer::new(4, 2, Color { r: 0, g: 0, b: 0 });
    let mut data: Vec<u8> = Vec::new();
    let pixels = [
        [9u8, 9, 9],
        [9, 9, 9],
        [9, 9, 9],
        [9, 9, 9],
        [255, 0, 0],
        [0, 255, 0],
        [0, 0, 255],
        [255, 255, 255],
    ];
    for p in pixels.iter() {
        data.extend_from_slice(&[p[0], p[1], p[2], 77]);
    }
    fb.clear();
    blit_rgba(&mut fb, &data, 4, 2, 8, 2);
    let out = String::from_utf8(fb.draw_frame()).unwrap();
    assert_eq!(
        out,
        "\x1B[2;1H\x1b[48;2;0;255;0m\x1b[38;2;0;255;0m**\
         \x1B[2;5H\x1b[48;2;0;0;255m\x1b[38;2;0;0;255m**\
         \x1B[3;1H\x1b[0m"
    );
}

fn prefab(name: &str, path: &str) -> Prefab {
    Prefab { name: name.to_string(), model_path: path.to_string() }
}

#[test]
fn get_prefab_finds_the_first_of_a_name() {
    let mut list = PrefabList {
        prefabs: vec![prefab("cube", "m/cube1.obj"), prefab("monke", "m/monke.obj"), prefab("cube", "m/cube2.obj")],
    };
    let found = list.get_prefab("cube".to_string()).unwrap();
    assert_eq!(found.name, "cube");
    assert_eq!(found.model_path, "m/cube1.obj");
    assert_eq!(list.get_prefab("monke".to_string()).unwrap().model_path, "m/monke.obj");
    assert!(list.get_prefab("sphere".to_string()).is_none());
    assert_eq!(list.prefabs.len(), 3);
}

#[test]
fn get_prefab_on_empty_list() {
    let mut list = PrefabList { prefabs: Vec::new() };
    assert!(list.get_prefab(String::new()).is_none());
}

#[test]
fn later_keys_override_earlier_ones() {
    let c = read_controls(&vec![Key::W, Key::A, Key::Escape, Key::Q, Key::S], false);
    assert_eq!(
        c,
        Controls { move_x: -1, move_y: 0, move_z: -1, look_x: 0, look_y: 0, paused: true, scene: Some(0) }
    );
}

#[test]
fn no_keys_keep_the_pause_state() {
    let c = read_controls(&Vec::new(), true);
    assert_eq!(c, Controls { move_x: 0, move_y: 0, move_z: 0, look_x: 0, look_y: 0, paused: true, scene: None });
}

#[test]
fn look_keys_and_second_scene() {
    let c = read_controls(&vec![Key::I, Key::L, Key::Space, Key::E, Key::Other, Key::Escape, Key::Escape], false);
    assert_eq!((c.look_x, c.look_y, c.move_y), (1, 1, 1));
    assert_eq!(c.scene, Some(1));
    assert!(!c.paused);
    let c = read_controls(&vec![Key::K, Key::J, Key::LShift, Key::D], false);
    assert_eq!((c.look_x, c.look_y, c.move_y, c.move_x), (-1, -1, -1, 1));
}

#[test]
fn terminal_columns_are_halved() {
    assert_eq!(ascii_render::sampling::grid_for_terminal(81, 24), (40, 24));
    assert_eq!(ascii_render::sampling::grid_for_terminal(0, 0), (0, 0));
}

#[test]
fn prefab_named_after_the_file() {
    let p = ascii_render::prefab::prefab_from_path("./src/models/cube.obj".to_string());
    assert_eq!(p.name, "cube.obj");
    assert_eq!(p.model_path, "./src/models/cube.obj");
    assert_eq!(ascii_render::prefab::prefab_from_path("monke.obj".to_string()).name, "monke.obj");
    assert_eq!(ascii_render::prefab::prefab_from_path("dir/".to_string()).name, "");
    assert_eq!(ascii_render::prefab::prefab_from_path("a/\u{e9}/\u{fc}.obj".to_string()).name, "\u{fc}.obj");
}

#[test]
fn objects_selected_by_any_tag() {
    let s = |v: &[&str]| v.iter().map(|t| t.to_string()).collect::<Vec<String>>();
    let objects = vec![s(&["cube", "ball"]), s(&[]), s(&["ball"]), s(&["ui"]), s(&["cube"])];
    assert_eq!(objects_with_tags(&objects, &s(&["ball", "cube"])), vec![0, 2, 4]);
    assert_eq!(objects_with_tags(&objects, &s(&["ui"])), vec![3]);
    assert_eq!(objects_with_tags(&objects, &s(&[])), Vec::<usize>::new());
    assert_eq!(objects_with_tags(&Vec::new(), &s(&["ui"])), Vec::<usize>::new());
}
