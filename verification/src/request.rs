//! Load requests and their routing by file extension.

use vstd::prelude::*;
use vstd::string::{StringExecFns, StringSliceAdditionalSpecFns};
use vstd::utf8::encode_utf8_decode_utf8;

verus! {

/// Where a request is routed.
#[derive(Clone, Copy, Debug, PartialEq, Eq, Hash, Structural)]
pub enum TargetKind {
    /// A model file: it goes to the scene loader.
    Scene,
    /// An image file: recognised, but nothing loads it yet.
    Image,
    /// Anything else.
    Unknown,
}

/// The sub-scene of a model file that is shown when none was chosen.
pub const DEFAULT_SUB_SCENE: u32 = 0;

/// The extension of the file that `path` names, if it has one, by the path
/// syntax of the platform the library is compiled for.
pub uninterp spec fn path_extension(path: Seq<char>) -> Option<Seq<char>>;

/// Calls `std::path::Path::extension` on `path`. The contract gives the
/// result the name `path_extension`, and claims nothing else of it. The
/// extension of a path that is valid UTF-8 is valid UTF-8 too, so the
/// conversion back into a `String` loses nothing.
#[verifier::external_body]
fn extension_of(path: &str) -> (ext: Option<String>)
    ensures
        ext matches Some(e) ==> path_extension(path@) == Some(e@),
        ext is None ==> path_extension(path@) is None,
{
    match std::path::Path::new(path).extension() {
        Some(ext) => Some(ext.to_string_lossy().into_owned()),
        None => None,
    }
}

/// The route that an extension selects. Matching is exact: `GLTF` is not
/// `gltf`.
pub open spec fn kind_of_extension(ext: Option<Seq<char>>) -> TargetKind {
    match ext {
        Some(e) => if e == "gltf"@ || e == "glb"@ {
            TargetKind::Scene
        } else if e == "png"@ || e == "jpg"@ {
            TargetKind::Image
        } else {
            TargetKind::Unknown
        },
        None => TargetKind::Unknown,
    }
}

/// The route of the file that `path` names.
pub open spec fn kind_of_path(path: Seq<char>) -> TargetKind {
    kind_of_extension(path_extension(path))
}

/// Only the two model extensions lead to a submission: a request for a path
/// with any other extension, or with none, is not submitted.
pub proof fn lemma_only_models_are_submitted(path: Seq<char>, sub_scene: u32)
    ensures
        DispatchAction::of(path, kind_of_path(path), sub_scene) is SubmitScene <==> (path_extension(
            path,
        ) == Some("gltf"@) || path_extension(path) == Some("glb"@)),
        DispatchAction::of(path, kind_of_path(path), sub_scene) is ReportUnimplemented <==> (
        path_extension(path) == Some("png"@) || path_extension(path) == Some("jpg"@)),
{
    reveal_strlit("gltf");
    reveal_strlit("glb");
    reveal_strlit("png");
    reveal_strlit("jpg");
    assert("gltf"@[0] != "png"@[0] && "gltf"@[0] != "jpg"@[0]);
    assert("glb"@[0] != "png"@[0] && "glb"@[0] != "jpg"@[0]);
}

/// Whether two strings hold the same characters.
fn str_equal(a: &str, b: &str) -> (same: bool)
    ensures
        same == (a@ == b@),
{
    let x = a.as_bytes();
    let y = b.as_bytes();
    if x.len() != y.len() {
        return false;
    }
    let mut i: usize = 0;
    while i < x.len()
        invariant
            i <= x@.len(),
            x@.len() == y@.len(),
            x@ == a.spec_bytes(),
            y@ == b.spec_bytes(),
            forall|k: int| 0 <= k < i ==> x@[k] == y@[k],
        decreases x@.len() - i,
    {
        if x[i] != y[i] {
            return false;
        }
        i += 1;
    }
    proof {
        assert(x@ =~= y@);
        encode_utf8_decode_utf8(a@);
        encode_utf8_decode_utf8(b@);
    }
    true
}

/// Routes by extension: `gltf` and `glb` are scenes, `png` and `jpg` are
/// images, everything else, and no extension at all, is unknown.
pub fn classify_extension(ext: Option<&str>) -> (kind: TargetKind)
    ensures
        kind == kind_of_extension(
            match ext {
                Some(e) => Some(e@),
                None => None,
            },
        ),
{
    match ext {
        Some(e) => {
            if str_equal(e, "gltf") || str_equal(e, "glb") {
                TargetKind::Scene
            } else if str_equal(e, "png") || str_equal(e, "jpg") {
                TargetKind::Image
            } else {
                TargetKind::Unknown
            }
        },
        None => TargetKind::Unknown,
    }
}

/// The character of one decimal digit.
pub open spec fn digit_char(d: nat) -> char {
    if d == 0 {
        '0'
    } else if d == 1 {
        '1'
    } else if d == 2 {
        '2'
    } else if d == 3 {
        '3'
    } else if d == 4 {
        '4'
    } else if d == 5 {
        '5'
    } else if d == 6 {
        '6'
    } else if d == 7 {
        '7'
    } else if d == 8 {
        '8'
    } else {
        '9'
    }
}

/// A number in decimal, without leading zeros.
pub open spec fn decimal(n: nat) -> Seq<char>
    decreases n,
{
    if n < 10 {
        seq![digit_char(n)]
    } else {
        decimal(n / 10).push(digit_char(n % 10))
    }
}

/// The label under which a model file offers sub-scene `index`.
pub open spec fn scene_label_spec(index: u32) -> Seq<char> {
    "Scene"@ + decimal(index as nat)
}

fn digit_str(d: u32) -> (s: &'static str)
    requires
        d < 10,
    ensures
        s@ == seq![digit_char(d as nat)],
{
    proof {
        reveal_strlit("0");
        reveal_strlit("1");
        reveal_strlit("2");
        reveal_strlit("3");
        reveal_strlit("4");
        reveal_strlit("5");
        reveal_strlit("6");
        reveal_strlit("7");
        reveal_strlit("8");
        reveal_strlit("9");
    }
    let s = if d == 0 {
        "0"
    } else if d == 1 {
        "1"
    } else if d == 2 {
        "2"
    } else if d == 3 {
        "3"
    } else if d == 4 {
        "4"
    } else if d == 5 {
        "5"
    } else if d == 6 {
        "6"
    } else if d == 7 {
        "7"
    } else if d == 8 {
        "8"
    } else {
        "9"
    };
    assert(s@ =~= seq![digit_char(d as nat)]);
    s
}

fn append_decimal(out: &mut String, n: u32)
    ensures
        final(out)@ == old(out)@ + decimal(n as nat),
    decreases n,
{
    if n >= 10 {
        append_decimal(out, n / 10);
    }
    out.append(digit_str(n % 10));
    proof {
        if n >= 10 {
            assert(out@ =~= old(out)@ + decimal((n / 10) as nat).push(digit_char((n % 10) as nat)));
        } else {
            assert(out@ =~= old(out)@ + seq![digit_char(n as nat)]);
        }
    }
}

/// The label of sub-scene `index`: the word `Scene` and the index in decimal.
pub fn scene_label(index: u32) -> (label: String)
    ensures
        label@ == scene_label_spec(index),
{
    let mut label = String::from_str("Scene");
    append_decimal(&mut label, index);
    label
}

/// One file that the user asked to load.
#[derive(Debug)]
pub struct LoadRequest {
    path: String,
    kind: TargetKind,
    sub_scene: Option<u32>,
}

/// What is then to be done with a request.
#[derive(Debug)]
pub enum DispatchAction {
    /// Submit the file at `path` to the scene loader, and instantiate the
    /// sub-scene that the file offers under `label`.
    SubmitScene { path: String, label: String },
    /// An image: say that nothing handles it yet, and do nothing else.
    ReportUnimplemented,
    /// Not a file this viewer knows: do nothing.
    Ignore,
}

impl DispatchAction {
    /// The action that a request of `kind` for `path` calls for.
    pub open spec fn of(path: Seq<char>, kind: TargetKind, sub_scene: u32) -> DispatchActionView {
        match kind {
            TargetKind::Scene => DispatchActionView::SubmitScene { path, label: scene_label_spec(sub_scene) },
            TargetKind::Image => DispatchActionView::ReportUnimplemented,
            TargetKind::Unknown => DispatchActionView::Ignore,
        }
    }
}

/// A `DispatchAction` with its strings as sequences of characters.
pub enum DispatchActionView {
    SubmitScene { path: Seq<char>, label: Seq<char> },
    ReportUnimplemented,
    Ignore,
}

impl View for DispatchAction {
    type V = DispatchActionView;

    open spec fn view(&self) -> DispatchActionView {
        match self {
            DispatchAction::SubmitScene { path, label } => DispatchActionView::SubmitScene {
                path: path@,
                label: label@,
            },
            DispatchAction::ReportUnimplemented => DispatchActionView::ReportUnimplemented,
            DispatchAction::Ignore => DispatchActionView::Ignore,
        }
    }
}

impl LoadRequest {
    #[verifier::type_invariant]
    spec fn inv(&self) -> bool {
        self.kind == kind_of_path(self.path@)
    }

    /// The path as it was given.
    pub closed spec fn path_spec(&self) -> Seq<char> {
        self.path@
    }

    /// The route, which the path's extension decides.
    pub closed spec fn kind_spec(&self) -> TargetKind {
        self.kind
    }

    /// The sub-scene that was chosen, if one was.
    pub closed spec fn chosen_sub_scene(&self) -> Option<u32> {
        self.sub_scene
    }

    /// The sub-scene to show: the chosen one, or the default.
    pub open spec fn sub_scene_spec(&self) -> u32 {
        match self.chosen_sub_scene() {
            Some(index) => index,
            None => DEFAULT_SUB_SCENE,
        }
    }

    /// The request to load the file at `path`, with no sub-scene chosen.
    pub fn from_path(path: String) -> (request: LoadRequest)
        ensures
            request.path_spec() == path@,
            request.kind_spec() == kind_of_path(path@),
            request.chosen_sub_scene() is None,
    {
        let kind = match extension_of(path.as_str()) {
            Some(ext) => classify_extension(Some(ext.as_str())),
            None => classify_extension(None),
        };
        LoadRequest { path, kind, sub_scene: None }
    }

    /// The same request with sub-scene `index` chosen.
    pub fn with_sub_scene(self, index: u32) -> (request: LoadRequest)
        ensures
            request.path_spec() == self.path_spec(),
            request.kind_spec() == self.kind_spec(),
            request.chosen_sub_scene() == Some(index),
    {
        proof {
            use_type_invariant(&self);
        }
        LoadRequest { path: self.path, kind: self.kind, sub_scene: Some(index) }
    }

    /// The path as it was given.
    pub fn path(&self) -> (path: &str)
        ensures
            path@ == self.path_spec(),
    {
        self.path.as_str()
    }

    /// The route of the request.
    pub fn kind(&self) -> (kind: TargetKind)
        ensures
            kind == self.kind_spec(),
            kind == kind_of_path(self.path_spec()),
    {
        proof {
            use_type_invariant(self);
        }
        self.kind
    }

    /// The sub-scene to show: the chosen one, or `DEFAULT_SUB_SCENE`.
    pub fn sub_scene(&self) -> (index: u32)
        ensures
            index == self.sub_scene_spec(),
    {
        match self.sub_scene {
            Some(index) => index,
            None => DEFAULT_SUB_SCENE,
        }
    }

    /// What is to be done with the request: a scene is submitted, an image
    /// is reported as not handled, anything else is ignored.
    pub fn action(&self) -> (action: DispatchAction)
        ensures
            action@ == DispatchAction::of(self.path_spec(), self.kind_spec(), self.sub_scene_spec()),
    {
        match self.kind {
            TargetKind::Scene => DispatchAction::SubmitScene {
                path: self.path.clone(),
                label: scene_label(self.sub_scene()),
            },
            TargetKind::Image => DispatchAction::ReportUnimplemented,
            TargetKind::Unknown => DispatchAction::Ignore,
        }
    }
}

} // verus!
