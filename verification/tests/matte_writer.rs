use app_shell::matte_writer::{
    matte_dimensions, matte_file_name, matte_relative_path, slugify, ProjectMatteWriter,
};

#[test]
fn slugify_handles_empty_and_symbols() {
    assert_eq!(slugify("  "), "matte");
    assert_eq!(slugify("!!!"), "matte");
    assert_eq!(slugify("Lower Third"), "lower-third");
}

#[test]
fn slugify_caps_length_and_collapses_runs() {
    let long = "A".repeat(50);
    assert_eq!(slugify(&long), "a".repeat(40));
    assert_eq!(slugify("--Red  BG!--"), "red-bg");
    assert_eq!(slugify("Lower   Third"), "lower-third");
    assert_eq!(slugify("Çafé 9"), "af-9");
    let dashy = format!("{}{}", "b".repeat(39), " x");
    assert_eq!(slugify(&dashy), format!("{}-", "b".repeat(39)), "the cap can end on a dash");
}

#[test]
fn matte_names_and_paths() {
    assert_eq!(matte_file_name("Red BG!", 123), "matte-red-bg-123.png");
    assert_eq!(matte_relative_path("matte-x-1.png"), "media/matte-x-1.png");
    let w = ProjectMatteWriter::new("/p/proj.palmier".to_string());
    assert_eq!(w.media_dir(), "/p/proj.palmier/media");
}

#[test]
fn matte_dimensions_clamp_to_pixel_range() {
    assert_eq!(matte_dimensions(4, 6), (4, 6));
    assert_eq!(matte_dimensions(0, -5), (1, 1));
    assert_eq!(matte_dimensions(100_000, 16_384), (16_384, 16_384));
}
