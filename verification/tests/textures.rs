use laberinto::color::Color;
use laberinto::textures::{
    is_transparent_key, LoadStep, LoadedFiles, Texture, TextureLoader, TextureManager,
};

/// A 2 x 2 texture: red, key color, white with low alpha, blue.
fn sample() -> Texture {
    let pixels = vec![
        255, 0, 0, 255, //
        152, 0, 136, 255, //
        255, 255, 255, 10, //
        0, 0, 255, 200,
    ];
    Texture::new(2, 2, pixels).unwrap()
}

#[test]
fn textures_need_four_bytes_per_texel() {
    assert!(Texture::new(2, 2, vec![0; 15]).is_none());
    assert!(Texture::new(0, 2, vec![]).is_none());
    assert!(Texture::new(1, 1, vec![1, 2, 3, 4]).is_some());
}

#[test]
fn texels_are_clamped_to_the_edge() {
    let t = sample();
    assert_eq!(t.pixel(0, 0), Color::new(255, 0, 0, 255));
    assert_eq!(t.pixel(1, 1), Color::new(0, 0, 255, 200));
    assert_eq!(t.pixel(9, 9), Color::new(0, 0, 255, 200));
    assert_eq!(t.pixel(0, 5), Color::new(255, 255, 255, 10));
}

#[test]
fn transparent_texels_are_not_drawn() {
    let mut m = TextureManager::new();
    let idx = m.add_texture(sample());
    m.bind('+', idx);
    m.bind('-', idx);
    assert_eq!(m.size('+'), Some((2, 2)));
    assert_eq!(m.size('|'), None);
    assert_eq!(m.get_pixel('+', 0, 0), Some(Color::new(255, 0, 0, 255)));
    assert_eq!(m.get_pixel('-', 1, 0), None);
    assert_eq!(m.get_pixel('+', 0, 1), None);
    assert_eq!(m.get_pixel('+', 1, 1), Some(Color::new(0, 0, 255, 200)));
    assert_eq!(m.get_pixel('|', 0, 0), None);
}

#[test]
fn binding_again_replaces_the_texture() {
    let mut m = TextureManager::new();
    let a = m.add_texture(sample());
    let b = m.add_texture(Texture::new(1, 1, vec![1, 2, 3, 255]).unwrap());
    m.bind('e', a);
    m.bind('e', b);
    assert_eq!(m.size('e'), Some((1, 1)));
    assert_eq!(m.get_pixel('e', 0, 0), Some(Color::new(1, 2, 3, 255)));
}

#[test]
fn the_key_color_ignores_alpha() {
    assert!(is_transparent_key(Color::new(152, 0, 136, 0)));
    assert!(!is_transparent_key(Color::new(152, 1, 136, 255)));
}

fn path(p: &str) -> Vec<char> {
    p.chars().collect()
}

#[test]
fn loading_picks_the_first_existing_file_and_shares_paths() {
    let mut loaded = LoadedFiles::new();
    let wall = vec![path("assets/pared2.png"), path("assets/pared.png")];
    assert_eq!(loaded.plan(&wall, &vec![false, false]), LoadStep::Missing);
    assert_eq!(loaded.plan(&wall, &vec![false, true]), LoadStep::Load(1));
    loaded.record(path("assets/pared.png"), 0);
    assert_eq!(loaded.plan(&wall, &vec![false, true]), LoadStep::Share(0));
    assert_eq!(loaded.plan(&wall, &vec![true, true]), LoadStep::Load(0));
    assert_eq!(loaded.lookup(&path("assets/pared.png")), Some(0));
    assert_eq!(loaded.lookup(&path("assets/pared3.png")), None);
}

#[test]
fn characters_with_one_file_share_one_texture() {
    let mut loader = TextureLoader::new();
    let plus = vec![path("assets/pared2.png"), path("assets/pared.png")];
    let minus = vec![path("assets/pared.png")];
    let exists_plus = vec![false, true];
    assert_eq!(loader.plan(&plus, &exists_plus), LoadStep::Load(1));
    let step = loader.settle('+', &plus, &exists_plus, Some(sample()));
    assert_eq!(step, LoadStep::Load(1));
    assert_eq!(loader.plan(&minus, &vec![true]), LoadStep::Share(0));
    assert_eq!(loader.settle('-', &minus, &vec![true], None), LoadStep::Share(0));
    let bar = vec![path("assets/pared3.png")];
    assert_eq!(loader.settle('|', &bar, &vec![true], None), LoadStep::Load(0));
    assert_eq!(loader.settle('g', &bar, &vec![false], None), LoadStep::Missing);
    let m = loader.into_manager();
    assert_eq!(m.size('+'), Some((2, 2)));
    assert_eq!(m.get_pixel('-', 0, 0), m.get_pixel('+', 0, 0));
    assert_eq!(m.size('|'), None);
    assert_eq!(m.size('g'), None);
}
