//! Image modifications and the registry that resolves their names.
//!
//! A [`Modification`] is one of a closed set of transforms, each with its
//! parameters. A registry maps a short name, such as `"rotate"`, to a
//! modification with default parameters; the modification itself reports a
//! precise name, such as `"rotate90"`.

use vstd::prelude::*;
use crate::fingerprint::hex_of;
use crate::fingerprint::packed;
use crate::imagehash::HashMethod;
use crate::raster::Image;
use crate::raster::Raster;

verus! {

#[verifier::external_type_specification]
#[verifier::external_body]
pub struct ExImageError(image::ImageError);

/// Calls `to_string` on an error of the `image` crate, which renders it
/// through its `Display` impl. Nothing is claimed of the text.
#[verifier::external_body]
fn image_error_text(e: &image::ImageError) -> (text: String) {
    e.to_string()
}

/// Why a modification could not be carried out.
#[derive(Debug)]
pub enum ModifyError {
    /// No modification is registered under this name.
    UnknownModification(String),
    /// The codec failed.
    ImageError(image::ImageError),
}

impl From<image::ImageError> for ModifyError {
    fn from(e: image::ImageError) -> (r: ModifyError) {
        ModifyError::ImageError(e)
    }
}

impl vstd::std_specs::convert::FromSpecImpl<image::ImageError> for ModifyError {
    open spec fn obeys_from_spec() -> bool {
        true
    }

    open spec fn from_spec(e: image::ImageError) -> ModifyError {
        ModifyError::ImageError(e)
    }
}

impl ModifyError {
    /// One line for the user: the kind of failure, then the name that was
    /// looked up or the codec's own words.
    pub fn message(&self) -> (text: String)
        ensures
            self matches ModifyError::UnknownModification(name) ==> text@
                == "Unknown modification "@ + name@,
            self is ImageError ==> "Image error "@.is_prefix_of(text@),
    {
        match self {
            ModifyError::UnknownModification(name) => {
                String::from_str("Unknown modification ").concat(name.as_str())
            },
            ModifyError::ImageError(e) => {
                let words = image_error_text(e);
                String::from_str("Image error ").concat(words.as_str())
            },
        }
    }
}

/// A clockwise rotation by a multiple of a quarter turn.
#[derive(Clone, Copy, Debug, PartialEq, Eq, Structural)]
pub enum Angle {
    Rot90,
    Rot180,
    Rot270,
}

impl Angle {
    /// The raster turned clockwise by this angle.
    pub open spec fn rotated(self, img: Raster) -> Raster {
        match self {
            Angle::Rot90 => img.rotate90(),
            Angle::Rot180 => img.rotate180(),
            Angle::Rot270 => img.rotate270(),
        }
    }

    /// The name that [`Angle::name`] reports.
    pub open spec fn spec_name(self) -> Seq<char> {
        match self {
            Angle::Rot90 => "rotate90"@,
            Angle::Rot180 => "rotate180"@,
            Angle::Rot270 => "rotate270"@,
        }
    }

    /// A copy of the image turned clockwise by this angle.
    pub fn apply(&self, img: &Image) -> (out: Image)
        ensures
            out@ == self.rotated(img@),
            img@.wf(),
            out@.wf(),
    {
        match self {
            Angle::Rot90 => img.rotate90(),
            Angle::Rot180 => img.rotate180(),
            Angle::Rot270 => img.rotate270(),
        }
    }

    /// The precise name of the rotation.
    pub fn name(&self) -> (name: &'static str)
        ensures
            name@ == self.spec_name(),
    {
        match self {
            Angle::Rot90 => "rotate90",
            Angle::Rot180 => "rotate180",
            Angle::Rot270 => "rotate270",
        }
    }
}

/// Rotation by an [`Angle`]; a quarter turn unless told otherwise.
#[derive(Clone, Copy, Debug, PartialEq, Eq, Structural)]
pub struct Rotate {
    pub angle: Angle,
}

impl Default for Rotate {
    fn default() -> (rotate: Rotate)
        ensures
            rotate.angle == Angle::Rot90,
    {
        Rotate { angle: Angle::Rot90 }
    }
}

impl Rotate {
    /// The default rotation, a quarter turn.
    pub fn new() -> (rotate: Rotate)
        ensures
            rotate.angle == Angle::Rot90,
    {
        Rotate { angle: Angle::Rot90 }
    }

    /// The same modification with another angle.
    pub fn with_angle(self, angle: Angle) -> (rotate: Rotate)
        ensures
            rotate.angle == angle,
    {
        Rotate { angle }
    }

    /// A copy of the image turned clockwise by the angle.
    pub fn apply(&self, img: &Image) -> (out: Image)
        ensures
            out@ == self.angle.rotated(img@),
            img@.wf(),
            out@.wf(),
    {
        self.angle.apply(img)
    }

    /// The precise name of the rotation, which tells the angle.
    pub fn name(&self) -> (name: &'static str)
        ensures
            name@ == self.angle.spec_name(),
    {
        self.angle.name()
    }
}

/// Gaussian blur. The standard deviation is kept in thousandths of a pixel,
/// so that it is an exact, non-negative number.
#[derive(Clone, Copy, Debug, PartialEq, Eq, Structural)]
pub struct Blur {
    pub sigma_milli: u32,
}

impl Default for Blur {
    fn default() -> (blur: Blur)
        ensures
            blur.sigma_milli == 900,
    {
        Blur { sigma_milli: 900 }
    }
}

impl Blur {
    /// The default blur, with a standard deviation of 0.9 pixels.
    pub fn new() -> (blur: Blur)
        ensures
            blur.sigma_milli == 900,
    {
        Blur { sigma_milli: 900 }
    }

    /// The same modification with another standard deviation, given in
    /// thousandths of a pixel.
    pub fn with_sigma_milli(self, sigma_milli: u32) -> (blur: Blur)
        ensures
            blur.sigma_milli == sigma_milli,
    {
        Blur { sigma_milli }
    }

    /// The name of the modification.
    pub fn name(&self) -> (name: &'static str)
        ensures
            name@ == "blur"@,
    {
        "blur"
    }
}

/// One of the transforms that can be applied to an image.
#[derive(Clone, Copy, Debug, PartialEq, Eq, Structural)]
pub enum Modification {
    Blur(Blur),
    Rotate(Rotate),
}

impl Modification {
    /// The name that [`Modification::name`] reports.
    pub open spec fn spec_name(self) -> Seq<char> {
        match self {
            Modification::Blur(_) => "blur"@,
            Modification::Rotate(rotate) => rotate.angle.spec_name(),
        }
    }

    /// The precise name of the modification, as shown in diagnostics and
    /// output.
    pub fn name(&self) -> (name: &'static str)
        ensures
            name@ == self.spec_name(),
    {
        match self {
            Modification::Blur(blur) => blur.name(),
            Modification::Rotate(rotate) => rotate.name(),
        }
    }
}

/// How far a modification was carried. Rotations are exact and are carried
/// out, and so is a blur with a standard deviation of zero, which leaves every
/// pixel as it is. Any other blur works on real numbers and is left to the
/// codec.
#[derive(Debug, PartialEq, Eq)]
pub enum Applied {
    /// The modified image.
    Done(Image),
    /// The image is still to be blurred, with the parameters given.
    ToBlur(Blur),
}

impl Blur {
    /// What the blur makes of a raster, where that needs no real numbers: a
    /// standard deviation of zero gives the raster back.
    pub open spec fn carried(self, img: Raster) -> Option<Raster> {
        if self.sigma_milli == 0 {
            Some(img)
        } else {
            None
        }
    }

    /// Applies the blur to an image: with a standard deviation of zero the
    /// result is a copy of the image, with any other it is the request to
    /// blur.
    pub fn apply(&self, img: &Image) -> (applied: Applied)
        ensures
            img@.wf(),
            agrees(applied, Modification::Blur(*self), img@),
    {
        let _ = img.width();
        if self.sigma_milli == 0 {
            Applied::Done(img.clone())
        } else {
            Applied::ToBlur(*self)
        }
    }
}

impl Modification {
    /// What the modification makes of a raster, where that needs no real
    /// numbers: the turned raster for a rotation, the raster itself for a
    /// blur with a standard deviation of zero, nothing for another blur.
    pub open spec fn carried(self, img: Raster) -> Option<Raster> {
        match self {
            Modification::Rotate(rotate) => Some(rotate.angle.rotated(img)),
            Modification::Blur(blur) => blur.carried(img),
        }
    }

    /// Applies the modification to an image: a rotation gives the turned
    /// copy, a blur with a standard deviation of zero gives a copy, any
    /// other blur gives the request to blur.
    pub fn apply(&self, img: &Image) -> (applied: Applied)
        ensures
            img@.wf(),
            agrees(applied, *self, img@),
    {
        match self {
            Modification::Blur(blur) => blur.apply(img),
            Modification::Rotate(rotate) => Applied::Done(rotate.apply(img)),
        }
    }
}

/// Whether `applied` is what applying `modification` to `img` comes to: the
/// image that the modification makes of it where the library carries it out,
/// the request to blur where it does not.
pub open spec fn agrees(applied: Applied, modification: Modification, img: Raster) -> bool {
    match modification.carried(img) {
        Some(out) => applied matches Applied::Done(done) && done@ == out && done@.wf(),
        None => modification matches Modification::Blur(blur) && applied == Applied::ToBlur(blur),
    }
}

/// What the built-in names stand for.
pub open spec fn builtin(name: Seq<char>) -> Option<Modification> {
    if name == "blur"@ {
        Some(Modification::Blur(Blur { sigma_milli: 900 }))
    } else if name == "rotate"@ {
        Some(Modification::Rotate(Rotate { angle: Angle::Rot90 }))
    } else {
        None
    }
}

/// Resolves a built-in name. The match is exact and tells upper case from
/// lower case; any other name is reported back in the error.
pub fn get_modification(name: &str) -> (r: Result<Modification, ModifyError>)
    ensures
        match builtin(name@) {
            Some(m) => r == Ok::<Modification, ModifyError>(m),
            None => r matches Err(ModifyError::UnknownModification(unknown)) && unknown@ == name@,
        },
{
    let key = String::from_str(name);
    if key == String::from_str("blur") {
        Ok(Modification::Blur(Blur::default()))
    } else if key == String::from_str("rotate") {
        Ok(Modification::Rotate(Rotate::default()))
    } else {
        Err(ModifyError::UnknownModification(key))
    }
}

/// Resolves a built-in name and applies the modification it stands for.
pub fn modify_img(img: &Image, modification_name: &str) -> (r: Result<Applied, ModifyError>)
    ensures
        match builtin(modification_name@) {
            Some(modification) => r matches Ok(applied) && agrees(applied, modification, img@),
            None => r matches Err(ModifyError::UnknownModification(unknown)) && unknown@
                == modification_name@,
        },
{
    match get_modification(modification_name) {
        Ok(modification) => Ok(modification.apply(img)),
        Err(e) => Err(e),
    }
}

/// The registry: a modification for each registered name. No name is
/// registered twice; registering a name again replaces what it stood for.
/// Names and modifications are kept side by side in two vectors, so that the
/// names can be listed, each once, in the order in which they came.
#[derive(Debug)]
pub struct Modifications {
    names: Vec<String>,
    methods: Vec<Modification>,
}

impl View for Modifications {
    type V = Map<Seq<char>, Modification>;

    closed spec fn view(&self) -> Map<Seq<char>, Modification> {
        Map::new(|name: Seq<char>| self.holds(name), |name: Seq<char>| self.methods@[self.place(name)])
    }
}

impl Modifications {
    #[verifier::type_invariant]
    spec fn inv(self) -> bool {
        &&& self.names@.len() == self.methods@.len()
        &&& forall|i: int, j: int|
            0 <= i < j < self.names@.len() ==> self.names@[i]@ != self.names@[j]@
    }

    spec fn holds(self, name: Seq<char>) -> bool {
        exists|i: int| 0 <= i < self.names@.len() && self.names@[i]@ == name
    }

    spec fn place(self, name: Seq<char>) -> int {
        choose|i: int| 0 <= i < self.names@.len() && self.names@[i]@ == name
    }

    /// The place of a name among the registered ones, if it is there.
    fn find(&self, key: &String) -> (found: Option<usize>)
        ensures
            match found {
                Some(i) => i < self.names@.len() && self.names@[i as int]@ == key@,
                None => !self.holds(key@),
            },
    {
        let mut i: usize = 0;
        while i < self.names.len()
            invariant
                i <= self.names@.len(),
                forall|j: int| 0 <= j < i ==> self.names@[j]@ != key@,
            decreases self.names@.len() - i,
        {
            if self.names[i] == *key {
                return Some(i);
            }
            i += 1;
        }
        None
    }

    /// The registry without any name.
    pub fn new() -> (registry: Modifications)
        ensures
            registry@ == Map::<Seq<char>, Modification>::empty(),
    {
        let registry = Modifications { names: Vec::new(), methods: Vec::new() };
        assert(registry@ =~= Map::<Seq<char>, Modification>::empty());
        registry
    }

    /// Registers a modification under a name. If the name is registered
    /// already, it stands for the new modification from now on.
    pub fn add(self, name: &str, modification: Modification) -> (registry: Modifications)
        ensures
            registry@ == self@.insert(name@, modification),
    {
        proof {
            use_type_invariant(&self);
        }
        let key = String::from_str(name);
        let found = self.find(&key);
        let Modifications { names, methods } = self;
        let mut names = names;
        let mut methods = methods;
        match found {
            Some(i) => {
                methods.set(i, modification);
            },
            None => {
                names.push(key);
                methods.push(modification);
            },
        }
        let registry = Modifications { names, methods };
        proof {
            assert forall|other: Seq<char>| registry.holds(other) <==> (self.holds(other) || other
                == name@) by {
                if self.holds(other) {
                    assert(registry.names@[self.place(other)]@ == other);
                }
                if other == name@ {
                    match found {
                        Some(i) => {
                            assert(registry.names@[i as int]@ == other);
                        },
                        None => {
                            assert(registry.names@[self.names@.len() as int]@ == other);
                        },
                    }
                }
            }
            assert forall|other: Seq<char>| registry.holds(other) implies registry.methods@[registry.place(
                other,
            )] == self@.insert(name@, modification)[other] by {
                let p = registry.place(other);
                if other == name@ {
                    match found {
                        Some(i) => {
                            assert(p == i);
                        },
                        None => {
                            assert(p == self.names@.len());
                        },
                    }
                } else {
                    assert(p < self.names@.len());
                    assert(self.names@[p]@ == other);
                    assert(p == self.place(other));
                }
            }
            assert(registry@ =~= self@.insert(name@, modification));
        }
        registry
    }

    /// The built-in registry: `"blur"` and `"rotate"`, each with its default
    /// parameters.
    pub fn load() -> (registry: Modifications)
        ensures
            registry@ == Map::<Seq<char>, Modification>::empty().insert(
                "blur"@,
                Modification::Blur(Blur { sigma_milli: 900 }),
            ).insert("rotate"@, Modification::Rotate(Rotate { angle: Angle::Rot90 })),
    {
        Modifications::new().add("blur", Modification::Blur(Blur::default())).add(
            "rotate",
            Modification::Rotate(Rotate::default()),
        )
    }

    /// Resolves a name: the modification registered under exactly this name,
    /// or the name back in the error if there is none.
    pub fn get(&self, name: &str) -> (r: Result<&Modification, ModifyError>)
        ensures
            self@.contains_key(name@) ==> r == Ok::<&Modification, ModifyError>(&self@[name@]),
            !self@.contains_key(name@) ==> (r matches Err(ModifyError::UnknownModification(unknown))
                && unknown@ == name@),
    {
        proof {
            use_type_invariant(self);
        }
        let key = String::from_str(name);
        match self.find(&key) {
            Some(i) => {
                assert(self.place(name@) == i);
                Ok(&self.methods[i])
            },
            None => Err(ModifyError::UnknownModification(key)),
        }
    }

    /// The registered names, each once.
    pub fn names(&self) -> (names: Vec<String>)
        ensures
            forall|i: int| 0 <= i < names@.len() ==> self@.contains_key(#[trigger] names@[i]@),
            forall|name: Seq<char>|
                self@.contains_key(name) ==> exists|i: int|
                    0 <= i < names@.len() && #[trigger] names@[i]@ == name,
            forall|i: int, j: int| 0 <= i < j < names@.len() ==> names@[i]@ != names@[j]@,
    {
        proof {
            use_type_invariant(self);
        }
        let mut names: Vec<String> = Vec::new();
        let mut i: usize = 0;
        while i < self.names.len()
            invariant
                i <= self.names@.len(),
                names@.len() == i,
                forall|j: int| 0 <= j < i ==> #[trigger] names@[j]@ == self.names@[j]@,
            decreases self.names@.len() - i,
        {
            names.push(self.names[i].clone());
            i += 1;
        }
        proof {
            assert forall|name: Seq<char>| self@.contains_key(name) implies exists|i: int|
                0 <= i < names@.len() && #[trigger] names@[i]@ == name by {
                let p = self.place(name);
                assert(names@[p]@ == name);
            }
        }
        names
    }
}

/// A quarter turn applied to the result of a three-quarter turn gives the
/// image back, pixel for pixel, and so does the reverse.
pub proof fn lemma_quarter_undoes_three_quarters(img: Raster)
    requires
        img.wf(),
    ensures
        Angle::Rot90.rotated(Angle::Rot270.rotated(img)) == img,
        Angle::Rot270.rotated(Angle::Rot90.rotated(img)) == img,
{
    img.lemma_rotate90_undoes_rotate270();
    img.lemma_rotate270_undoes_rotate90();
}

/// Two half turns give the image back, and two quarter turns make a half
/// turn.
pub proof fn lemma_turns_add_up(img: Raster)
    requires
        img.wf(),
    ensures
        Angle::Rot180.rotated(Angle::Rot180.rotated(img)) == img,
        Angle::Rot90.rotated(Angle::Rot90.rotated(img)) == Angle::Rot180.rotated(img),
{
    img.lemma_rotate180_twice();
    img.lemma_rotate90_twice();
}

/// A blur with a standard deviation of zero gives the image back, pixel for
/// pixel, and so the blurred image has the fingerprint of the image, bit for
/// bit and in both forms, under every hash method.
pub proof fn lemma_blur_zero_keeps_fingerprint<M: HashMethod>(method: M, blur: Blur, img: Raster)
    requires
        blur.sigma_milli == 0,
    ensures
        blur.carried(img) == Some(img),
        Modification::Blur(blur).carried(img) == Some(img),
        forall|applied: Applied|
            agrees(applied, Modification::Blur(blur), img) ==> (applied matches Applied::Done(out)
                && out@ == img && method.fingerprint(out@) == method.fingerprint(img)
                && method.fingerprint(out@).len() == method.fingerprint(img).len() && packed(
                method.fingerprint(out@),
            ) == packed(method.fingerprint(img)) && hex_of(packed(method.fingerprint(out@)))
                == hex_of(packed(method.fingerprint(img)))),
{
}

/// The built-in registry resolves exactly the built-in names, each to what
/// [`get_modification`] gives for it.
pub proof fn lemma_builtin_registry(registry: Map<Seq<char>, Modification>, name: Seq<char>)
    requires
        registry == Map::<Seq<char>, Modification>::empty().insert(
            "blur"@,
            Modification::Blur(Blur { sigma_milli: 900 }),
        ).insert("rotate"@, Modification::Rotate(Rotate { angle: Angle::Rot90 })),
    ensures
        registry.contains_key(name) <==> builtin(name) is Some,
        registry.contains_key(name) ==> builtin(name) == Some(registry[name]),
        builtin("blur"@) == Some(Modification::Blur(Blur { sigma_milli: 900 })),
        builtin("rotate"@) == Some(Modification::Rotate(Rotate { angle: Angle::Rot90 })),
{
    reveal_strlit("blur");
    reveal_strlit("rotate");
    assert("blur"@.len() != "rotate"@.len());
}

} // verus!
