use vstd::prelude::*;
use crate::color::Color;
use std::collections::HashMap;

verus! {

/// The key color that marks transparent texels in the images (its alpha is
/// not looked at).
pub fn transparent_color() -> (c: Color)
    ensures
        c == (Color { r: 152, g: 0, b: 136, a: 255 }),
{
    Color { r: 152, g: 0, b: 136, a: 255 }
}

pub open spec fn is_key_color(c: Color) -> bool {
    c.r == 152 && c.g == 0 && c.b == 136
}

/// Whether a texel is drawn: it is opaque enough and not the key color.
pub open spec fn shows(c: Color) -> bool {
    c.a >= 128 && !is_key_color(c)
}

/// A decoded image: `width * height` texels, four bytes (RGBA) each, row by
/// row.
pub struct Texture {
    width: u32,
    height: u32,
    pixels: Vec<u8>,
}

/// Position of texel `(x, y)`'s first byte.
pub open spec fn texel_offset(width: int, x: int, y: int) -> int {
    (y * width + x) * 4
}

proof fn lemma_texel_in_bounds(w: int, h: int, x: int, y: int)
    by (nonlinear_arith)
    requires
        0 <= x < w,
        0 <= y < h,
    ensures
        0 <= texel_offset(w, x, y),
        texel_offset(w, x, y) + 4 <= w * h * 4,
        y * w + x < w * h,
        0 <= y * w <= y * w + x,
{
    assert(y * w <= (h - 1) * w);
}

impl Texture {
    #[verifier::type_invariant]
    closed spec fn well_formed(self) -> bool {
        &&& self.width > 0
        &&& self.height > 0
        &&& self.pixels@.len() == self.width * self.height * 4
    }

    pub closed spec fn spec_width(&self) -> u32 {
        self.width
    }

    pub closed spec fn spec_height(&self) -> u32 {
        self.height
    }

    pub closed spec fn spec_pixels(&self) -> Seq<u8> {
        self.pixels@
    }

    /// The texel at `(x, y)`, with coordinates past the edge clamped to it.
    pub open spec fn texel(&self, tx: u32, ty: u32) -> Color {
        let x = if tx < self.spec_width() {
            tx as int
        } else {
            self.spec_width() - 1
        };
        let y = if ty < self.spec_height() {
            ty as int
        } else {
            self.spec_height() - 1
        };
        let i = texel_offset(self.spec_width() as int, x, y);
        let p = self.spec_pixels();
        Color { r: p[i], g: p[i + 1], b: p[i + 2], a: p[i + 3] }
    }

    /// A texture from decoded RGBA bytes; `None` unless the image has texels
    /// and exactly four bytes for each.
    pub fn new(width: u32, height: u32, pixels: Vec<u8>) -> (t: Option<Texture>)
        ensures
            t is Some <==> (width > 0 && height > 0 && pixels@.len() == width * height * 4),
            t matches Some(t) ==> t.spec_width() == width && t.spec_height() == height
                && t.spec_pixels() == pixels@,
    {
        proof {
            assert((width as u128) * (height as u128) * 4 <= u32::MAX as int * u32::MAX as int * 4)
                by (nonlinear_arith);
        }
        let expected = (width as u128) * (height as u128) * 4;
        if width == 0 || height == 0 || (pixels.len() as u128) != expected {
            return None;
        }
        Some(Texture { width, height, pixels })
    }

    /// Width and height in texels.
    pub fn size(&self) -> (s: (u32, u32))
        ensures
            s == (self.spec_width(), self.spec_height()),
            s.0 > 0 && s.1 > 0,
    {
        proof {
            use_type_invariant(self);
        }
        (self.width, self.height)
    }

    /// The texel at `(tx, ty)`; coordinates past the edge are clamped to it.
    pub fn pixel(&self, tx: u32, ty: u32) -> (c: Color)
        ensures
            c == self.texel(tx, ty),
    {
        proof {
            use_type_invariant(self);
        }
        let x = if tx < self.width {
            tx
        } else {
            self.width - 1
        };
        let y = if ty < self.height {
            ty
        } else {
            self.height - 1
        };
        let w = self.width as usize;
        let len = self.pixels.len();
        proof {
            lemma_texel_in_bounds(self.width as int, self.height as int, x as int, y as int);
        }
        let row = (y as usize) * w;
        let idx = (row + x as usize) * 4;
        Color {
            r: self.pixels[idx],
            g: self.pixels[idx + 1],
            b: self.pixels[idx + 2],
            a: self.pixels[idx + 3],
        }
    }
}

/// Key of a map character in the table of bindings: its code point.
pub open spec fn char_key(ch: char) -> u32 {
    ch as u32
}

/// Different characters have different keys, so binding one character
/// never touches another's texture.
pub proof fn lemma_char_key_injective(c1: char, c2: char)
    requires
        c1 != c2,
    ensures
        char_key(c1) != char_key(c2),
{
    assert(0 <= c1 as int <= 0x10FFFF);
    assert(0 <= c2 as int <= 0x10FFFF);
}

/// The textures of a level and which map character each one is drawn for.
/// Several characters may share one texture. Characters are looked up by
/// their code point.
pub struct TextureManager {
    textures: Vec<Texture>,
    by_char: HashMap<u32, usize>,
}

impl TextureManager {
    #[verifier::type_invariant]
    closed spec fn well_formed(self) -> bool {
        forall|k: u32| #[trigger] self.by_char@.contains_key(k) ==> self.by_char@[k] < self.textures@.len()
    }

    /// Number of textures held.
    pub closed spec fn texture_count(&self) -> nat {
        self.textures@.len()
    }

    /// The `i`-th texture.
    pub closed spec fn texture_at(&self, i: int) -> Texture {
        self.textures@[i]
    }

    /// Index of the texture drawn for `ch`, if any.
    pub closed spec fn binding(&self, ch: char) -> Option<int> {
        if self.by_char@.contains_key(char_key(ch)) {
            Some(self.by_char@[char_key(ch)] as int)
        } else {
            None
        }
    }

    /// A manager with no textures; characters without a texture are drawn in
    /// flat colors.
    pub fn new() -> (m: TextureManager)
        ensures
            m.texture_count() == 0,
            forall|ch: char| m.binding(ch) is None,
    {
        TextureManager { textures: Vec::new(), by_char: HashMap::new() }
    }

    /// Stores a texture and returns its index.
    pub fn add_texture(&mut self, t: Texture) -> (idx: usize)
        ensures
            idx == old(self).texture_count(),
            final(self).texture_count() == old(self).texture_count() + 1,
            final(self).texture_at(idx as int) == t,
            forall|i: int| 0 <= i < idx ==> final(self).texture_at(i) == old(self).texture_at(i),
            forall|ch: char| final(self).binding(ch) == old(self).binding(ch),
    {
        proof {
            use_type_invariant(&*self);
        }
        let mut m = TextureManager::new();
        std::mem::swap(&mut m, self);
        let TextureManager { mut textures, by_char } = m;
        let idx = textures.len();
        textures.push(t);
        *self = TextureManager { textures, by_char };
        idx
    }

    /// Draws `ch` with texture `idx` from now on, replacing what it was drawn
    /// with before.
    pub fn bind(&mut self, ch: char, idx: usize)
        requires
            idx < old(self).texture_count(),
        ensures
            final(self).texture_count() == old(self).texture_count(),
            forall|i: int| 0 <= i < old(self).texture_count() ==> final(self).texture_at(i) == old(self).texture_at(i),
            final(self).binding(ch) == Some(idx as int),
            forall|c: char| char_key(c) != char_key(ch) ==> final(self).binding(c) == old(self).binding(c),
            forall|c: char| c != ch ==> final(self).binding(c) == old(self).binding(c),
    {
        broadcast use vstd::std_specs::hash::group_hash_axioms;

        proof {
            use_type_invariant(&*self);
        }
        let mut m = TextureManager::new();
        std::mem::swap(&mut m, self);
        let TextureManager { textures, mut by_char } = m;
        by_char.insert(ch as u32, idx);
        *self = TextureManager { textures, by_char };
        proof {
            assert forall|c: char| c != ch implies self.binding(c) == old(self).binding(c) by {
                lemma_char_key_injective(c, ch);
            }
        }
    }

    /// Index of the texture for `ch`.
    fn lookup(&self, ch: char) -> (idx: Option<usize>)
        ensures
            idx is None <==> self.binding(ch) is None,
            idx matches Some(i) ==> self.binding(ch) == Some(i as int) && i < self.texture_count(),
    {
        broadcast use vstd::std_specs::hash::group_hash_axioms;

        proof {
            use_type_invariant(self);
        }
        let key = ch as u32;
        match self.by_char.get(&key) {
            Some(i) => Some(*i),
            None => None,
        }
    }

    /// Size of the texture drawn for `ch`, if it has one.
    pub fn size(&self, ch: char) -> (s: Option<(u32, u32)>)
        ensures
            s == (match self.binding(ch) {
                None => None,
                Some(i) => Some(
                    (self.texture_at(i).spec_width(), self.texture_at(i).spec_height()),
                ),
            }),
    {
        match self.lookup(ch) {
            None => None,
            Some(i) => Some(self.textures[i].size()),
        }
    }

    /// The texel of `ch`'s texture at `(tx, ty)` (clamped to the edge), or
    /// `None` when `ch` has no texture or the texel is transparent: alpha below
    /// 128, or the key color.
    pub fn get_pixel(&self, ch: char, tx: u32, ty: u32) -> (c: Option<Color>)
        ensures
            c == (match self.binding(ch) {
                None => None,
                Some(i) => if shows(self.texture_at(i).texel(tx, ty)) {
                    Some(self.texture_at(i).texel(tx, ty))
                } else {
                    None
                },
            }),
            c matches Some(color) ==> shows(color),
    {
        let i = match self.lookup(ch) {
            None => return None,
            Some(i) => i,
        };
        let color = self.textures[i].pixel(tx, ty);
        if color.a < 128 || is_transparent_key(color) {
            return None;
        }
        Some(color)
    }
}

/// Whether a color is the transparency key (alpha aside).
pub fn is_transparent_key(color: Color) -> (key: bool)
    ensures
        key == is_key_color(color),
{
    let t = transparent_color();
    color.r == t.r && color.g == t.g && color.b == t.b
}

/// Whether two paths are the same text.
fn same_path(a: &Vec<char>, b: &Vec<char>) -> (same: bool)
    ensures
        same == (a@ == b@),
{
    if a.len() != b.len() {
        return false;
    }
    let n = a.len();
    for k in 0..n
        invariant
            n == a@.len(),
            n == b@.len(),
            forall|q: int| 0 <= q < k ==> a@[q] == b@[q],
    {
        if a[k] != b[k] {
            return false;
        }
    }
    proof {
        assert(a@ =~= b@);
    }
    true
}

/// The next step in loading a character's texture.
#[derive(Clone, Copy, PartialEq, Eq, Structural, Debug)]
pub enum LoadStep {
    /// None of the candidate files exists: the character keeps flat colors.
    Missing,
    /// The chosen file was already loaded into this texture: share it.
    Share(usize),
    /// Load the candidate with this index.
    Load(usize),
}

/// Index of the first candidate `k` with `exists[k]`.
pub open spec fn first_true(exists: Seq<bool>, k: int) -> bool {
    &&& 0 <= k < exists.len()
    &&& exists[k]
    &&& forall|q: int| 0 <= q < k ==> !exists[q]
}

/// The files already loaded, each with the texture it was loaded into.
pub struct LoadedFiles {
    files: Vec<(Vec<char>, usize)>,
}

impl View for LoadedFiles {
    type V = Seq<(Seq<char>, usize)>;

    closed spec fn view(&self) -> Seq<(Seq<char>, usize)> {
        self.files@.map_values(|f: (Vec<char>, usize)| (f.0@, f.1))
    }
}

/// `idx` is the texture of the first entry for `path`, or `None` when there
/// is no entry for it.
pub open spec fn loaded_as(files: Seq<(Seq<char>, usize)>, path: Seq<char>, idx: Option<usize>) -> bool {
    match idx {
        None => forall|q: int| 0 <= q < files.len() ==> (#[trigger] files[q]).0 != path,
        Some(i) => exists|k: int|
            0 <= k < files.len() && (#[trigger] files[k]).0 == path && files[k].1 == i && forall|
                q: int,
            |
                0 <= q < k ==> (#[trigger] files[q]).0 != path,
    }
}

impl LoadedFiles {
    pub fn new() -> (f: LoadedFiles)
        ensures
            f@ == Seq::<(Seq<char>, usize)>::empty(),
    {
        LoadedFiles { files: Vec::new() }
    }

    /// Notes that `path` was loaded into texture `idx`.
    pub fn record(&mut self, path: Vec<char>, idx: usize)
        ensures
            final(self)@ == old(self)@.push((path@, idx)),
    {
        self.files.push((path, idx));
        proof {
            assert(self@ =~= old(self)@.push((path@, idx)));
        }
    }

    /// The texture `path` was loaded into, if it was.
    pub fn lookup(&self, path: &Vec<char>) -> (idx: Option<usize>)
        ensures
            loaded_as(self@, path@, idx),
    {
        let n = self.files.len();
        for k in 0..n
            invariant
                n == self.files@.len(),
                forall|q: int| 0 <= q < k ==> (#[trigger] self@[q]).0 != path@,
        {
            if same_path(&self.files[k].0, path) {
                proof {
                    assert(self@[k as int].0 == path@);
                }
                return Some(self.files[k].1);
            }
        }
        None
    }

    /// How to get a character's texture from its candidate files, tried in
    /// order: the first one that exists is chosen; if it was already loaded,
    /// its texture is shared, otherwise it is loaded.
    pub fn plan(&self, candidates: &Vec<Vec<char>>, exists: &Vec<bool>) -> (step: LoadStep)
        requires
            candidates@.len() == exists@.len(),
        ensures
            planned(self@, candidates@, exists@, step),
    {
        let n = exists.len();
        for k in 0..n
            invariant
                n == exists@.len(),
                n == candidates@.len(),
                forall|q: int| 0 <= q < k ==> !exists@[q],
        {
            if exists[k] {
                proof {
                    assert(first_true(exists@, k as int));
                }
                return match self.lookup(&candidates[k]) {
                    Some(i) => LoadStep::Share(i),
                    None => LoadStep::Load(k),
                };
            }
        }
        LoadStep::Missing
    }
}

/// `step` is what loading a character from `cands` (of which `exists` says
/// which files exist) comes to, given the files already loaded: `Missing`
/// when none exists; otherwise the first existing file is shared when it was
/// loaded before, and loaded when not.
pub open spec fn planned(
    files: Seq<(Seq<char>, usize)>,
    cands: Seq<Vec<char>>,
    exists: Seq<bool>,
    step: LoadStep,
) -> bool {
    &&& step == LoadStep::Missing <==> forall|q: int| 0 <= q < exists.len() ==> !exists[q]
    &&& step matches LoadStep::Load(k) ==> first_true(exists, k as int) && loaded_as(
        files,
        cands[k as int]@,
        None,
    )
    &&& step matches LoadStep::Share(i) ==> exists|k: int|
        first_true(exists, k) && loaded_as(files, cands[k]@, Some(i))
}

/// `ch` is drawn with the texture that file `path` was loaded into.
pub open spec fn bound_to_file(
    files: Seq<(Seq<char>, usize)>,
    m: TextureManager,
    ch: char,
    path: Seq<char>,
) -> bool {
    exists|q: int|
        0 <= q < files.len() && (#[trigger] files[q]).0 == path && m.binding(ch) == Some(
            files[q].1 as int,
        )
}

/// No file is listed twice.
pub open spec fn files_distinct(files: Seq<(Seq<char>, usize)>) -> bool {
    forall|a: int, b: int| 0 <= a < b < files.len() ==> (#[trigger] files[a]).0 != (#[trigger] files[b]).0
}

/// A copy of a path.
fn copy_path(p: &Vec<char>) -> (c: Vec<char>)
    ensures
        c@ == p@,
{
    let mut c: Vec<char> = Vec::new();
    let n = p.len();
    for k in 0..n
        invariant
            n == p@.len(),
            c@ == p@.take(k as int),
    {
        c.push(p[k]);
        proof {
            assert(c@ =~= p@.take(k + 1));
        }
    }
    proof {
        assert(p@.take(n as int) =~= p@);
    }
    c
}

/// Loads the textures of a level, one character at a time: characters whose
/// chosen file is the same share one texture, and each file is loaded once.
pub struct TextureLoader {
    manager: TextureManager,
    files: LoadedFiles,
}

impl TextureLoader {
    #[verifier::type_invariant]
    closed spec fn well_formed(self) -> bool {
        &&& files_distinct(self.files@)
        &&& forall|q: int|
            0 <= q < self.files@.len() ==> (#[trigger] self.files@[q]).1 < self.manager.texture_count()
    }

    /// The textures loaded and bound so far.
    pub closed spec fn spec_manager(&self) -> TextureManager {
        self.manager
    }

    /// The files loaded so far, each with its texture.
    pub closed spec fn spec_files(&self) -> Seq<(Seq<char>, usize)> {
        self.files@
    }

    pub fn new() -> (l: TextureLoader)
        ensures
            l.spec_manager().texture_count() == 0,
            forall|ch: char| l.spec_manager().binding(ch) is None,
            l.spec_files() == Seq::<(Seq<char>, usize)>::empty(),
    {
        TextureLoader { manager: TextureManager::new(), files: LoadedFiles::new() }
    }

    /// The next step for a character whose candidate files are `candidates`.
    pub fn plan(&self, candidates: &Vec<Vec<char>>, exists: &Vec<bool>) -> (step: LoadStep)
        requires
            candidates@.len() == exists@.len(),
        ensures
            planned(self.spec_files(), candidates@, exists@, step),
    {
        self.files.plan(candidates, exists)
    }

    /// Settles the texture of `ch`, `decoded` being the image of the file to
    /// load when `plan` asks for a load (`None` when it could not be read).
    /// A file already loaded is shared; a newly loaded file becomes a new
    /// texture, is listed with it, and `ch` is bound to it; otherwise nothing
    /// changes. Returns the step taken.
    pub fn settle(
        &mut self,
        ch: char,
        candidates: &Vec<Vec<char>>,
        exists: &Vec<bool>,
        decoded: Option<Texture>,
    ) -> (step: LoadStep)
        requires
            candidates@.len() == exists@.len(),
        ensures
            planned(old(self).spec_files(), candidates@, exists@, step),
            files_distinct(final(self).spec_files()),
            step is Share || (step is Load && decoded is Some) ==> exists|k: int|
                #[trigger] first_true(exists@, k) && bound_to_file(
                    final(self).spec_files(),
                    final(self).spec_manager(),
                    ch,
                    candidates@[k]@,
                ),
            ({
                let m0 = old(self).spec_manager();
                let m1 = final(self).spec_manager();
                match step {
                    LoadStep::Share(i) => {
                        &&& m1.texture_count() == m0.texture_count()
                        &&& forall|j: int| 0 <= j < m0.texture_count() ==> m1.texture_at(j) == m0.texture_at(j)
                        &&& m1.binding(ch) == Some(i as int)
                        &&& forall|c: char| char_key(c) != char_key(ch) ==> m1.binding(c) == m0.binding(c)
                        &&& forall|c: char| c != ch ==> m1.binding(c) == m0.binding(c)
                        &&& final(self).spec_files() == old(self).spec_files()
                    },
                    LoadStep::Load(k) => match decoded {
                        Some(t) => {
                            let idx = m0.texture_count();
                            &&& m1.texture_count() == idx + 1
                            &&& m1.texture_at(idx as int) == t
                            &&& forall|j: int| 0 <= j < idx ==> m1.texture_at(j) == m0.texture_at(j)
                            &&& m1.binding(ch) == Some(idx as int)
                            &&& forall|c: char| char_key(c) != char_key(ch) ==> m1.binding(c) == m0.binding(c)
                            &&& forall|c: char| c != ch ==> m1.binding(c) == m0.binding(c)
                            &&& final(self).spec_files() == old(self).spec_files().push(
                                (candidates@[k as int]@, idx as usize),
                            )
                        },
                        None => *final(self) == *old(self),
                    },
                    LoadStep::Missing => *final(self) == *old(self),
                }
            }),
    {
        proof {
            use_type_invariant(&*self);
        }
        let step = self.files.plan(candidates, exists);
        match step {
            LoadStep::Missing => {},
            LoadStep::Share(i) => {
                let mut l = TextureLoader::new();
                std::mem::swap(&mut l, self);
                let TextureLoader { mut manager, files } = l;
                proof {
                    let k = choose|k: int| first_true(exists@, k) && loaded_as(files@, candidates@[k]@, Some(i));
                    let q = choose|q: int|
                        0 <= q < files@.len() && (#[trigger] files@[q]).0 == candidates@[k]@ && files@[q].1
                            == i && forall|p: int| 0 <= p < q ==> (#[trigger] files@[p]).0 != candidates@[k]@;
                    assert(files@[q].1 < manager.texture_count());
                }
                manager.bind(ch, i);
                *self = TextureLoader { manager, files };
                proof {
                    let k = choose|k: int| first_true(exists@, k) && loaded_as(self.files@, candidates@[k]@, Some(i));
                    let q = choose|q: int|
                        0 <= q < self.files@.len() && (#[trigger] self.files@[q]).0 == candidates@[k]@ && self.files@[q].1
                            == i && forall|p: int| 0 <= p < q ==> (#[trigger] self.files@[p]).0 != candidates@[k]@;
                    assert(bound_to_file(self.files@, self.manager, ch, candidates@[k]@));
                }
            },
            LoadStep::Load(k) => {
                match decoded {
                    None => {},
                    Some(t) => {
                        let mut l = TextureLoader::new();
                        std::mem::swap(&mut l, self);
                        let TextureLoader { mut manager, mut files } = l;
                        let ghost before = files@;
                        let idx = manager.add_texture(t);
                        files.record(copy_path(&candidates[k]), idx);
                        manager.bind(ch, idx);
                        proof {
                            assert forall|a: int, b: int|
                                0 <= a < b < files@.len() implies (#[trigger] files@[a]).0
                                    != (#[trigger] files@[b]).0 by {
                                if b == before.len() {
                                    assert(files@[a] == before[a]);
                                }
                            }
                            assert forall|q: int| 0 <= q < files@.len() implies (#[trigger] files@[q]).1
                                < manager.texture_count() by {
                                if q < before.len() {
                                    assert(files@[q] == before[q]);
                                }
                            }
                        }
                        *self = TextureLoader { manager, files };
                        proof {
                            let q = before.len() as int;
                            assert(self.files@[q].0 == candidates@[k as int]@);
                            assert(bound_to_file(self.files@, self.manager, ch, candidates@[k as int]@));
                            assert(first_true(exists@, k as int));
                        }
                    },
                }
            },
        }
        step
    }

    /// The textures loaded.
    pub fn into_manager(self) -> (m: TextureManager)
        ensures
            m == self.spec_manager(),
    {
        self.manager
    }
}

} // verus!
