//! The configuration record of a run and the command-line overrides on it.
//!
//! Reading the record from a file is the caller's business. This module holds
//! the record's integer and choice fields, their defaults, and the rules by
//! which the command line changes them.

use crate::error::TracerError;
use vstd::prelude::*;
use vstd::string::StringExecFns;

verus! {

/// The command line: where the configuration file is, and what to override.
#[derive(Debug)]
pub struct Args {
    pub config: String,
    pub scene: Option<String>,
    pub image_action: Option<ImageActionConfig>,
}

#[derive(Clone, Copy, Debug, PartialEq, Eq)]
pub struct ScreenConfig {
    pub height: usize,
    pub width: usize,
}

impl Default for ScreenConfig {
    fn default() -> (c: Self)
        ensures
            c == (ScreenConfig { height: 0, width: 0 }),
    {
        ScreenConfig { height: 0, width: 0 }
    }
}

/// The settings of one renderer: samples per pixel, bounce limit, the grid
/// of tiles, and the block size of a preview.
#[derive(Clone, Copy, Debug, PartialEq, Eq)]
pub struct RenderConfig {
    pub samples: usize,
    pub max_depth: usize,
    pub num_threads_width: usize,
    pub num_threads_height: usize,
    pub scale: usize,
}

impl Default for RenderConfig {
    fn default() -> (c: Self)
        ensures
            c == (RenderConfig {
                samples: 0,
                max_depth: 0,
                num_threads_width: 0,
                num_threads_height: 0,
                scale: 0,
            }),
    {
        RenderConfig {
            samples: 0,
            max_depth: 0,
            num_threads_width: 0,
            num_threads_height: 0,
            scale: 0,
        }
    }
}

/// Where the scene comes from.
#[derive(Debug, Clone, PartialEq, Eq)]
pub enum SceneLoaderConfig {
    NoScene,
    Yml { path: String },
    Random,
    Sandbox,
}

impl Default for SceneLoaderConfig {
    fn default() -> (c: Self)
        ensures
            c is NoScene,
    {
        SceneLoaderConfig::NoScene
    }
}

/// What to do with a finished image.
#[derive(Debug, Clone, Copy, PartialEq, Eq)]
pub enum ImageActionConfig {
    NoAction,
    SavePng,
}

impl Default for ImageActionConfig {
    fn default() -> (c: Self)
        ensures
            c is NoAction,
    {
        ImageActionConfig::NoAction
    }
}

#[derive(Debug, Clone, Copy, PartialEq, Eq)]
pub enum SceneControllerConfig {
    Interactive,
}

impl Default for SceneControllerConfig {
    fn default() -> (c: Self)
        ensures
            c is Interactive,
    {
        SceneControllerConfig::Interactive
    }
}

/// Which renderer to use: the full one or the block-replicating preview.
#[derive(Debug, Clone, Copy, PartialEq, Eq)]
pub enum RendererConfig {
    Cpu,
    CpuPreview,
}

impl Default for RendererConfig {
    fn default() -> (c: Self)
        ensures
            c is Cpu,
    {
        RendererConfig::Cpu
    }
}

/// The renderer of previews where a configuration file names none.
pub fn default_preview() -> (r: RendererConfig)
    ensures
        r is CpuPreview,
{
    RendererConfig::CpuPreview
}

/// Whether two texts are the same.
fn same_text(a: &str, b: &str) -> (same: bool)
    ensures
        same == (a@ == b@),
{
    String::from_str(a) == String::from_str(b)
}

impl ImageActionConfig {
    /// The action that a word on the command line asks for: `png` saves,
    /// every other word does nothing.
    pub open spec fn parse_spec(s: Seq<char>) -> ImageActionConfig {
        if s == "png"@ {
            ImageActionConfig::SavePng
        } else {
            ImageActionConfig::NoAction
        }
    }

    /// Reads an action from a word. Never fails: an unknown word means no
    /// action.
    pub fn parse(s: &str) -> (action: ImageActionConfig)
        ensures
            action == Self::parse_spec(s@),
    {
        if same_text(s, "png") {
            ImageActionConfig::SavePng
        } else {
            ImageActionConfig::NoAction
        }
    }
}

impl std::str::FromStr for ImageActionConfig {
    type Err = TracerError;

    /// Reads an action from a word, as [`ImageActionConfig::parse`] does;
    /// never fails.
    fn from_str(s: &str) -> (res: Result<Self, Self::Err>)
        ensures
            res == Ok::<ImageActionConfig, TracerError>(ImageActionConfig::parse_spec(s@)),
    {
        Ok(ImageActionConfig::parse(s))
    }
}

/// The extension of the file that a path names, as `std::path::Path` reads
/// the path; `None` where it finds none.
pub uninterp spec fn path_extension(path: Seq<char>) -> Option<Seq<char>>;

/// `Path::extension` on `path`, as text. The result is the extension that
/// `Path` finds in the path, which is a function of the path alone.
#[verifier::external_body]
fn extension_of(path: &str) -> (ext: Option<String>)
    ensures
        ext matches Some(e) ==> path_extension(path@) == Some(e@),
        ext is None ==> path_extension(path@) is None,
{
    std::path::Path::new(path).extension().map(|e| e.to_string_lossy().into_owned())
}

/// The integer and choice fields of the configuration.
#[derive(Debug, Clone, PartialEq, Eq)]
pub struct Config {
    pub preview: RenderConfig,
    pub render: RenderConfig,
    pub screen: ScreenConfig,
    pub loader: SceneLoaderConfig,
    pub image_action: ImageActionConfig,
    pub image_output_dir: Option<String>,
    pub scene_controller: SceneControllerConfig,
    pub renderer: RendererConfig,
    pub preview_renderer: RendererConfig,
}

impl Default for Config {
    fn default() -> (c: Self)
        ensures
            c.preview == RenderConfig::default_spec(),
            c.render == RenderConfig::default_spec(),
            c.screen == (ScreenConfig { height: 0, width: 0 }),
            c.loader is NoScene,
            c.image_action is NoAction,
            c.image_output_dir is None,
            c.scene_controller is Interactive,
            c.renderer is Cpu,
            c.preview_renderer is Cpu,
    {
        Config {
            preview: RenderConfig::default(),
            render: RenderConfig::default(),
            screen: ScreenConfig::default(),
            loader: SceneLoaderConfig::default(),
            image_action: ImageActionConfig::default(),
            image_output_dir: None,
            scene_controller: SceneControllerConfig::default(),
            renderer: RendererConfig::default(),
            preview_renderer: RendererConfig::default(),
        }
    }
}

impl RenderConfig {
    /// The settings in which every number is zero.
    pub open spec fn default_spec() -> RenderConfig {
        RenderConfig {
            samples: 0,
            max_depth: 0,
            num_threads_width: 0,
            num_threads_height: 0,
            scale: 0,
        }
    }
}

/// What a scene argument selects, given the extension found in it.
///
/// The reserved words `random` and `sandbox` select the built-in scenes,
/// whatever their extension. Any other argument is a path: with extension
/// `yml` it selects the scene file loader on that path; with another
/// extension, or with none, it is refused.
pub enum SceneChoice {
    Random,
    Sandbox,
    YmlFile,
    NoExtension,
    UnknownExtension,
}

pub open spec fn scene_choice(scene: Seq<char>, ext: Option<Seq<char>>) -> SceneChoice {
    if scene == "random"@ {
        SceneChoice::Random
    } else if scene == "sandbox"@ {
        SceneChoice::Sandbox
    } else {
        match ext {
            None => SceneChoice::NoExtension,
            Some(e) => if e == "yml"@ {
                SceneChoice::YmlFile
            } else {
                SceneChoice::UnknownExtension
            },
        }
    }
}

/// Whether `res` is what the scene argument `scene`, with extension `ext`,
/// makes of the loader setting.
pub open spec fn loader_selected(
    scene: Seq<char>,
    ext: Option<Seq<char>>,
    res: Result<SceneLoaderConfig, TracerError>,
) -> bool {
    match scene_choice(scene, ext) {
        SceneChoice::Random => res == Ok::<SceneLoaderConfig, TracerError>(
            SceneLoaderConfig::Random,
        ),
        SceneChoice::Sandbox => res == Ok::<SceneLoaderConfig, TracerError>(
            SceneLoaderConfig::Sandbox,
        ),
        SceneChoice::YmlFile => res matches Ok(SceneLoaderConfig::Yml { path }) && path@ == scene,
        SceneChoice::NoExtension => res matches Err(TracerError::ArgumentParsingError(text))
            && text@ == "Could not get extension from scene file: "@ + scene,
        SceneChoice::UnknownExtension => res matches Err(TracerError::ArgumentParsingError(text))
            && text@ == "Could not find a suitable scene loader for file: "@ + scene,
    }
}

/// Chooses the loader for the scene argument `scene`, in which the
/// extension `ext` was found.
pub fn select_loader(scene: String, ext: Option<String>) -> (res: Result<
    SceneLoaderConfig,
    TracerError,
>)
    ensures
        loader_selected(
            scene@,
            match ext {
                Some(e) => Some(e@),
                None => None,
            },
            res,
        ),
{
    if same_text(scene.as_str(), "random") {
        Ok(SceneLoaderConfig::Random)
    } else if same_text(scene.as_str(), "sandbox") {
        Ok(SceneLoaderConfig::Sandbox)
    } else {
        match ext {
            None => {
                let mut text = String::from_str("Could not get extension from scene file: ");
                text.append(scene.as_str());
                Err(TracerError::ArgumentParsingError(text))
            },
            Some(e) => {
                if same_text(e.as_str(), "yml") {
                    Ok(SceneLoaderConfig::Yml { path: scene })
                } else {
                    let mut text = String::from_str(
                        "Could not find a suitable scene loader for file: ",
                    );
                    text.append(scene.as_str());
                    Err(TracerError::ArgumentParsingError(text))
                }
            },
        }
    }
}

impl Config {
    /// Applies the command line to a configuration that was read from a
    /// file. An image action on the command line replaces the file's. A
    /// scene argument replaces the file's loader, or is refused: see
    /// `loader_selected`. Everything else is kept.
    pub fn with_args(self, args: Args) -> (res: Result<Config, TracerError>)
        ensures
            args.scene is None ==> res is Ok,
            res matches Ok(cfg) ==> {
                &&& cfg.preview == self.preview
                &&& cfg.render == self.render
                &&& cfg.screen == self.screen
                &&& cfg.image_output_dir == self.image_output_dir
                &&& cfg.scene_controller == self.scene_controller
                &&& cfg.renderer == self.renderer
                &&& cfg.preview_renderer == self.preview_renderer
                &&& cfg.image_action == match args.image_action {
                    Some(action) => action,
                    None => self.image_action,
                }
                &&& args.scene is None ==> cfg.loader == self.loader
            },
            args.scene matches Some(scene) ==> loader_selected(
                scene@,
                path_extension(scene@),
                match res {
                    Ok(cfg) => Ok(cfg.loader),
                    Err(e) => Err(e),
                },
            ),
    {
        let mut cfg = self;
        if let Some(image_action) = args.image_action {
            cfg.image_action = image_action;
        }
        if let Some(scene) = args.scene {
            let ext = extension_of(scene.as_str());
            match select_loader(scene, ext) {
                Ok(loader) => {
                    cfg.loader = loader;
                },
                Err(e) => {
                    return Err(e);
                },
            }
        }
        Ok(cfg)
    }
}

} // verus!
